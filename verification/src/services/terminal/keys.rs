//! The terminal's message handlers.

use super::model::{
    clear_v, cursor_down, cursor_up, display_pid, editor_v, help_lines, input_line_v, last_nl_before, min_int,
    next_nl_from, print_v, prompt_for, sh_args, term_execute, term_key_editor, term_key_line, term_message, TermModel,
    TerminalProcess,
};
use crate::host::{host_view, host_views, HostCall, HostView};
use crate::ipc::{
    bus_send, lemma_sent_chain, lemma_sent_none, lemma_sent_one, msg_view, sent_views, Message, MessagePayload,
    MsgView, PayloadView,
};
use crate::paths::{absolute, absolute_exec, cd_target, cd_target_exec};
use crate::sys::SyscallEnv;
use crate::text::{
    fit_exec, lemma_blen_insert_remove, lemma_fit_all, lemma_fit_le, lemma_width, prefix_bytes, width, push_bytes, chars_eq_str, chars_of, copy_str, lemma_trim_has_word, string_of, trim, trim_exec, words, words_exec};
use vstd::prelude::*;
use vstd::string::*;
use vstd::utf8::is_ascii_chars;

verus! {

/// The host requests are extended by requests whose views are `vs`.
pub open spec fn calls_grew(env0: &SyscallEnv, env1: &SyscallEnv, vs: Seq<HostView>) -> bool {
    host_views(env1.host.calls@) == host_views(env0.host.calls@) + vs
}

/// Everything about the environment but the bus and the host requests is as it was.
pub open spec fn env_frame(env0: &SyscallEnv, env1: &SyscallEnv) -> bool {
    &&& env1.wf()
    &&& env1.pid == env0.pid
    &&& env1.registry == env0.registry
    &&& env1.host.now_ms == env0.host.now_ms
    &&& env1.host.tz_offset_ms == env0.host.tz_offset_ms
    &&& env1.host.next_window_id == env0.host.next_window_id
}

fn copy_chars(v: &Vec<char>) -> (r: Vec<char>)
    ensures
        r@ == v@,
{
    let mut r: Vec<char> = Vec::new();
    let mut i: usize = 0;
    while i < v.len()
        invariant
            i <= v@.len(),
            r@ == v@.take(i as int),
        decreases v@.len() - i,
    {
        r.push(v[i]);
        i = i + 1;
        assert(r@ =~= v@.take(i as int));
    }
    assert(v@.take(v@.len() as int) =~= v@);
    r
}

/// The prompt for a working directory.
pub fn prompt_exec(cwd: &str) -> (r: String)
    ensures
        r@ == prompt_for(cwd@),
{
    let mut p = copy_str("root@monkeyos:");
    p.append(cwd);
    p.append("# ");
    p
}

fn line_start(s: &Vec<char>, c: usize) -> (r: usize)
    requires
        c <= s@.len(),
    ensures
        r == last_nl_before(s@, c as int) + 1,
        r <= c,
{
    let mut k = c;
    while k > 0
        invariant
            k <= c,
            c <= s@.len(),
            last_nl_before(s@, c as int) == last_nl_before(s@, k as int),
        decreases k,
    {
        if s[k - 1] == '\n' {
            return k;
        }
        k = k - 1;
    }
    0
}

fn next_nl(s: &Vec<char>, c: usize) -> (r: Option<usize>)
    ensures
        match r {
            Some(i) => next_nl_from(s@, c as int) == i && c <= i < s@.len(),
            None => next_nl_from(s@, c as int) == -1,
        },
{
    let mut k = c;
    while k < s.len()
        invariant
            c <= k,
            next_nl_from(s@, c as int) == next_nl_from(s@, k as int),
        decreases s@.len() - k,
    {
        if s[k] == '\n' {
            return Some(k);
        }
        k = k + 1;
    }
    None
}

impl TerminalProcess {
    fn send_to_display(&self, env: &mut SyscallEnv, payload: MessagePayload, pv: Ghost<spec_fn(u32) -> PayloadView>)
        requires
            old(env).wf(),
            forall|id: u32| self.window_id == Some(id) ==> payload_matches(payload, pv@(id)),
        ensures
            env_frame(old(env), final(env)),
            final(env).host.calls@ == old(env).host.calls@,
            sent_views(
                old(env).ipc@,
                final(env).ipc@,
                super::model::to_display(self@, old(env).registry@, old(env).pid, pv@),
            ),
    {
        let ghost before = env.ipc@;
        match self.window_id {
            Some(_id) => match env.lookup_service("display") {
                Some(d) => {
                    let ghost msg = Message { sender: env.pid, receiver: d, payload };
                    env.send_msg(d, payload);
                    proof { lemma_sent_one(before, msg); }
                },
                None => {
                    proof { lemma_sent_none(before); }
                },
            },
            None => {
                proof { lemma_sent_none(before); }
            },
        }
    }

    pub(crate) fn print(&self, env: &mut SyscallEnv, text: String)
        requires
            old(env).wf(),
        ensures
            env_frame(old(env), final(env)),
            final(env).host.calls@ == old(env).host.calls@,
            sent_views(old(env).ipc@, final(env).ipc@, print_v(self@, old(env).registry@, old(env).pid, text@)),
    {
        let id = match self.window_id { Some(id) => id, None => 0 };
        let ghost t = text@;
        self.send_to_display(env, MessagePayload::AppendHtmlOverlayText { id, text }, Ghost(|id: u32| PayloadView::AppendOverlay { id, text: t }));
    }

    pub(crate) fn redraw_input_line(&self, env: &mut SyscallEnv)
        requires
            old(env).wf(),
        ensures
            env_frame(old(env), final(env)),
            final(env).host.calls@ == old(env).host.calls@,
            sent_views(old(env).ipc@, final(env).ipc@, input_line_v(self@, old(env).registry@, old(env).pid)),
    {
        let id = match self.window_id { Some(id) => id, None => 0 };
        let prompt = if self.edit_state.is_some() { String::new() } else { self.prompt.clone() };
        let input = string_of(self.input_buffer.as_slice());
        let ghost t = self@;
        self.send_to_display(
            env,
            MessagePayload::UpdateHtmlOverlayInputLine { id, prompt, input, cursor_pos: self.cursor_pos as u32 },
            Ghost(|id: u32| PayloadView::InputLine {
                id,
                prompt: if t.edit_state is Some { Seq::empty() } else { t.prompt },
                input: t.input,
                cursor_pos: t.cursor as u32,
            }),
        );
    }

    fn redraw_editor(&self, env: &mut SyscallEnv)
        requires
            old(env).wf(),
        ensures
            env_frame(old(env), final(env)),
            final(env).host.calls@ == old(env).host.calls@,
            sent_views(old(env).ipc@, final(env).ipc@, editor_v(self@, old(env).registry@, old(env).pid)),
    {
        let id = match self.window_id { Some(id) => id, None => 0 };
        let content = string_of(self.input_buffer.as_slice());
        let ghost t = self@;
        self.send_to_display(
            env,
            MessagePayload::DrawEditor { id, content, cursor_pos: self.cursor_pos as u32 },
            Ghost(|id: u32| PayloadView::Editor { id, content: t.input, cursor_pos: t.cursor as u32 }),
        );
    }

    fn clear_overlay(&self, env: &mut SyscallEnv)
        requires
            old(env).wf(),
        ensures
            env_frame(old(env), final(env)),
            final(env).host.calls@ == old(env).host.calls@,
            sent_views(old(env).ipc@, final(env).ipc@, clear_v(self@, old(env).registry@, old(env).pid)),
    {
        let id = match self.window_id { Some(id) => id, None => 0 };
        self.send_to_display(env, MessagePayload::ClearHtmlOverlayText { id }, Ghost(|id: u32| PayloadView::ClearOverlay { id }));
    }
}

impl TerminalProcess {
    /// Enter in the line editor.
    fn execute_command(&mut self, env: &mut SyscallEnv)
        requires
            old(env).wf(),
            old(self).wf(),
            old(self).edit_state is None,
        ensures
            final(self).pid == old(self).pid,
            final(self).wf(),
            env_frame(old(env), final(env)),
            ({
                let st = term_execute(old(self)@, old(env).registry@, old(env).pid);
                &&& final(self)@ == st.model
                &&& sent_views(old(env).ipc@, final(env).ipc@, st.outs)
                &&& calls_grew(old(env), final(env), st.calls)
            }),
    {
        let ghost t0 = self@;
        let ghost reg = env.registry@;
        let ghost me = env.pid;
        let ghost b0 = env.ipc@;
        let ghost hv0 = host_views(env.host.calls@);
        let ghost st = term_execute(t0, reg, me);
        let cmd = trim_exec(self.input_buffer.as_slice());
        match self.window_id {
            Some(id) => {
                let c = HostCall::PrintDirect { id, text: copy_str("\n") };
                let ghost cs = env.host.calls@;
                env.host_call(c);
                assert(host_views(env.host.calls@) =~= host_views(cs).push(host_view(c)));
            },
            None => {},
        }
        let ghost nl_calls: Seq<HostView> = match t0.window_id {
            Some(id) => seq![HostView::PrintDirect { id, text: "\n"@ }],
            None => Seq::empty(),
        };
        assert(host_views(env.host.calls@) =~= hv0 + nl_calls);
        let ghost b1 = env.ipc@;
        if cmd.len() == 0 {
            self.input_buffer = Vec::new();
            self.cursor_pos = 0;
            let p = self.prompt.clone();
            self.print(env, p);
            let ghost b2 = env.ipc@;
            self.redraw_input_line(env);
            proof {
                lemma_sent_chain(b1, b2, env.ipc@, print_v(self@, reg, me, self@.prompt), input_line_v(self@, reg, me));
                assert(b1 == b0);
                assert(self@ == st.model);
            }
            return;
        }
        proof { lemma_trim_has_word(t0.input); }
        let parts = words_exec(cmd.as_slice());
        let ghost pv = parts@.map_values(|w: Vec<char>| w@);
        assert(pv[0] == parts@[0]@);
        let is_help = chars_eq_str(parts[0].as_slice(), "help");
        let is_clear = chars_eq_str(parts[0].as_slice(), "clear");
        let is_edit = chars_eq_str(parts[0].as_slice(), "edit");
        let is_cd = chars_eq_str(parts[0].as_slice(), "cd");
        if is_edit && parts.len() >= 2 {
            assert(pv[1] == parts@[1]@);
            let cwd_chars = chars_of(self.cwd.as_str());
            let fname = absolute_exec(cwd_chars.as_slice(), parts[1].as_slice());
            let filename = string_of(fname.as_slice());
            let req = string_of(fname.as_slice());
            self.edit_state = Some(filename);
            self.input_buffer = Vec::new();
            self.cursor_pos = 0;
            let c = HostCall::ReadFile { requester: env.pid, path: req };
            let ghost cs = env.host.calls@;
            env.host_call(c);
            proof {
                assert(host_views(env.host.calls@) =~= host_views(cs).push(host_view(c)));
                assert(self@.input =~= Seq::<char>::empty());
                lemma_sent_none(b0);
                assert(self@ == st.model);
                assert(host_views(env.host.calls@) =~= hv0 + st.calls);
            }
            return;
        }
        if is_help {
            self.print(env, copy_str("Available commands: help, clear, cd, ls, cat, echo, mkdir, rm, touch, pwd, sh, edit\n"));
            let ghost b2 = env.ipc@;
            self.print(env, copy_str("Try: ls /bin\n"));
            proof {
                lemma_sent_chain(b1, b2, env.ipc@, print_v(t0, reg, me, help_lines().0), print_v(t0, reg, me, help_lines().1));
            }
        } else if is_clear {
            self.clear_overlay(env);
        } else if is_edit {
            self.print(env, copy_str("Usage: edit <filename>\n"));
        } else if is_cd {
            let cwd_chars = chars_of(self.cwd.as_str());
            let new_cwd = if parts.len() > 1 {
                assert(pv[1] == parts@[1]@);
                cd_target_exec(cwd_chars.as_slice(), Some(parts[1].as_slice()))
            } else {
                cd_target_exec(cwd_chars.as_slice(), None)
            };
            self.cwd = string_of(new_cwd.as_slice());
            self.prompt = prompt_exec(self.cwd.as_str());
            proof { lemma_sent_none(b1); }
        } else {
            let mut args: Vec<u8> = Vec::new();
            push_bytes(&mut args, "/bin/sh");
            args.push(0);
            push_bytes(&mut args, "-c");
            args.push(0);
            let cmd_str = string_of(cmd.as_slice());
            push_bytes(&mut args, cmd_str.as_str());
            args.push(0);
            assert(args@ =~= sh_args(cmd@));
            let tid = match self.window_id { Some(id) => id, None => 0 };
            let c = HostCall::Execve {
                args,
                cwd: self.cwd.clone(),
                stdin: None,
                stdout: None,
                terminal_id: tid,
                route_output_to: self.window_id,
            };
            let ghost cs = env.host.calls@;
            env.host_call(c);
            assert(host_views(env.host.calls@) =~= host_views(cs).push(host_view(c)));
            proof { lemma_sent_none(b1); }
        }
        let ghost body_model = self@;
        let ghost b2 = env.ipc@;
        let ghost body_outs: Seq<MsgView> = if is_help {
            print_v(t0, reg, me, help_lines().0) + print_v(t0, reg, me, help_lines().1)
        } else if is_clear {
            clear_v(t0, reg, me)
        } else if is_edit {
            print_v(t0, reg, me, "Usage: edit <filename>\n"@)
        } else {
            Seq::empty()
        };
        assert(sent_views(b1, b2, body_outs));
        let saved = copy_chars(&self.input_buffer);
        let ghost h0 = self.history@;
        self.history.push(saved);
        proof {
            assert forall|i: int| 0 <= i < self.history@.len() implies is_ascii_chars(#[trigger] self.history@[i]@) by {
                if i < h0.len() {
                    assert(self.history@[i] == h0[i]);
                } else {
                    assert(self.history@[i]@ == self.input_buffer@);
                }
            }
        }
        self.history_index = self.history.len();
        self.input_buffer = Vec::new();
        self.cursor_pos = 0;
        let p = self.prompt.clone();
        self.print(env, p);
        let ghost b3 = env.ipc@;
        self.redraw_input_line(env);
        proof {
            assert(self@.history =~= body_model.history.push(body_model.input));
            lemma_sent_chain(b2, b3, env.ipc@, print_v(self@, reg, me, self@.prompt), input_line_v(self@, reg, me));
            lemma_sent_chain(b1, b2, env.ipc@, body_outs, print_v(self@, reg, me, self@.prompt) + input_line_v(self@, reg, me));
            assert(body_outs + (print_v(self@, reg, me, self@.prompt) + input_line_v(self@, reg, me))
                =~= body_outs + print_v(self@, reg, me, self@.prompt) + input_line_v(self@, reg, me));
            assert(self@ == st.model);
            assert(host_views(env.host.calls@) =~= hv0 + st.calls);
        }
    }
}

impl TerminalProcess {
    /// A key in the line editor.
    fn key_line(&mut self, env: &mut SyscallEnv, key: u32)
        requires
            old(env).wf(),
            old(self).wf(),
            old(self).edit_state is None,
        ensures
            final(self).pid == old(self).pid,
            final(self).wf(),
            env_frame(old(env), final(env)),
            ({
                let st = term_key_line(old(self)@, old(env).registry@, old(env).pid, key);
                &&& final(self)@ == st.model
                &&& sent_views(old(env).ipc@, final(env).ipc@, st.outs)
                &&& calls_grew(old(env), final(env), st.calls)
            }),
    {
        let ghost t0 = self@;
        let ghost b0 = env.ipc@;
        let ghost hv0 = host_views(env.host.calls@);
        if key == 13 {
            self.execute_command(env);
            return;
        }
        assert(hv0 + Seq::<HostView>::empty() =~= hv0);
        let mut changed = false;
        if key == 8 {
            if self.cursor_pos > 0 {
                self.cursor_pos = self.cursor_pos - 1;
                self.input_buffer.remove(self.cursor_pos);
                changed = true;
            }
        } else if key == 1037 {
            if self.cursor_pos > 0 {
                self.cursor_pos = self.cursor_pos - 1;
                changed = true;
            }
        } else if key == 1039 {
            if self.cursor_pos < self.input_buffer.len() {
                self.cursor_pos = self.cursor_pos + 1;
                changed = true;
            }
        } else if key == 1038 {
            if self.history.len() > 0 && self.history_index > 0 {
                self.history_index = self.history_index - 1;
                self.input_buffer = copy_chars(&self.history[self.history_index]);
                self.cursor_pos = self.input_buffer.len();
                changed = true;
            }
        } else if key == 1040 {
            if self.history_index < self.history.len() {
                self.history_index = self.history_index + 1;
                if self.history_index == self.history.len() {
                    self.input_buffer = Vec::new();
                } else {
                    self.input_buffer = copy_chars(&self.history[self.history_index]);
                }
                self.cursor_pos = self.input_buffer.len();
                changed = true;
            }
        } else if 32 <= key && key <= 126 {
            let c = (key as u8) as char;
            self.input_buffer.insert(self.cursor_pos, c);
            let _len = self.input_buffer.len();
            self.cursor_pos = self.cursor_pos + 1;
            changed = true;
        }
        if changed {
            self.redraw_input_line(env);
        } else {
            proof { lemma_sent_none(b0); }
        }
        proof {
            let st = term_key_line(t0, env.registry@, env.pid, key);
            if key == 1038 && changed {
                assert(self@.input == t0.history[self@.history_index as int]);
            }
            if key == 1040 && changed && self.history_index < self.history@.len() {
                assert(self@.input == t0.history[self@.history_index as int]);
            }
            if key == 1040 && changed && self.history_index == self.history@.len() {
                assert(self@.input =~= Seq::<char>::empty());
            }
            if 32 <= key <= 126 {
                assert(((key as u8) as char) == key as char);
            }
            assert(self@ == st.model);
        }
    }

    /// A key in the editor.
    fn key_editor(&mut self, env: &mut SyscallEnv, key: u32)
        requires
            old(env).wf(),
            old(self).wf(),
            old(self).edit_state is Some,
        ensures
            final(self).pid == old(self).pid,
            final(self).wf(),
            env_frame(old(env), final(env)),
            ({
                let st = term_key_editor(old(self)@, old(env).registry@, old(env).pid, key);
                &&& final(self)@ == st.model
                &&& sent_views(old(env).ipc@, final(env).ipc@, st.outs)
                &&& calls_grew(old(env), final(env), st.calls)
            }),
    {
        let ghost t0 = self@;
        let ghost reg = env.registry@;
        let ghost me = env.pid;
        let ghost b0 = env.ipc@;
        let ghost hv0 = host_views(env.host.calls@);
        if key == 19 {
            match &self.edit_state {
                Some(f) => {
                    let c = HostCall::WriteFile { path: f.clone(), content: string_of(self.input_buffer.as_slice()) };
                    let ghost cs = env.host.calls@;
                    env.host_call(c);
                    assert(host_views(env.host.calls@) =~= host_views(cs).push(host_view(c)));
                    assert(host_view(c) == HostView::WriteFile { path: t0.edit_state->0, content: t0.input });
                    assert(host_views(env.host.calls@) =~= hv0 + seq![HostView::WriteFile { path: t0.edit_state->0, content: t0.input }]);
                },
                None => {},
            }
            proof { lemma_sent_none(b0); }
            return;
        }
        assert(hv0 + Seq::<HostView>::empty() =~= hv0);
        if key == 17 {
            self.edit_state = None;
            self.input_buffer = Vec::new();
            self.cursor_pos = 0;
            self.clear_overlay(env);
            let ghost b1 = env.ipc@;
            self.print(env, copy_str("\n"));
            let ghost b2 = env.ipc@;
            let p = self.prompt.clone();
            self.print(env, p);
            let ghost b3 = env.ipc@;
            self.redraw_input_line(env);
            proof {
                let t1 = self@;
                lemma_sent_chain(b0, b1, b2, clear_v(t1, reg, me), print_v(t1, reg, me, "\n"@));
                lemma_sent_chain(b0, b2, b3, clear_v(t1, reg, me) + print_v(t1, reg, me, "\n"@), print_v(t1, reg, me, t1.prompt));
                lemma_sent_chain(b0, b3, env.ipc@, clear_v(t1, reg, me) + print_v(t1, reg, me, "\n"@) + print_v(t1, reg, me, t1.prompt), input_line_v(t1, reg, me));
                assert(self@.input =~= Seq::<char>::empty());
            }
            return;
        }
        let mut changed = false;
        let ghost s0 = t0.input;
        let ghost c0 = t0.cursor as int;
        if key == 13 || (32 <= key && key <= 126 && key != 46) {
            let ch: char = if key == 13 { '\n' } else { (key as u8) as char };
            let (k, rest) = fit_exec(self.input_buffer.as_slice(), self.cursor_pos);
            proof {
                lemma_fit_le(s0, c0 as nat);
            }
            if rest == 0 {
                let total = prefix_bytes(self.input_buffer.as_slice(), k, self.input_buffer.len(), self.cursor_pos);
                proof {
                    assert(s0.take(s0.len() as int) =~= s0);
                }
                if total < usize::MAX {
                    proof {
                        lemma_fit_le(s0, c0 as nat);
                        lemma_blen_insert_remove(s0, k as int, ch);
                        lemma_width(ch);
                        vstd::utf8::char_is_scalar(ch);
                        assert(width(ch) == 1);
                    }
                    self.input_buffer.insert(k, ch);
                    self.cursor_pos = self.cursor_pos + 1;
                    changed = true;
                }
            }
        } else if key == 8 {
            if self.cursor_pos > 0 {
                let p = self.cursor_pos - 1;
                let (k, rest) = fit_exec(self.input_buffer.as_slice(), p);
                if rest == 0 && k < self.input_buffer.len() {
                    proof {
                        lemma_blen_insert_remove(s0, k as int, ' ');
                    }
                    self.cursor_pos = p;
                    self.input_buffer.remove(k);
                    changed = true;
                }
            }
        } else if key == 1037 {
            if self.cursor_pos > 0 {
                self.cursor_pos = self.cursor_pos - 1;
                changed = true;
            }
        } else if key == 1038 {
            let m = if self.cursor_pos <= self.input_buffer.len() { self.cursor_pos } else { self.input_buffer.len() };
            let ls = line_start(&self.input_buffer, m);
            if ls > 0 {
                let prev = line_start(&self.input_buffer, ls - 1);
                let col = m - ls;
                let span = ls - 1 - prev;
                self.cursor_pos = prev + if col <= span { col } else { span };
                changed = true;
            }
        } else if key == 1040 {
            let (k, rest) = fit_exec(self.input_buffer.as_slice(), self.cursor_pos);
            let m = if self.cursor_pos <= self.input_buffer.len() { self.cursor_pos } else { self.input_buffer.len() };
            let ls = line_start(&self.input_buffer, m);
            let col = m - ls;
            proof {
                lemma_fit_le(s0, c0 as nat);
            }
            if rest == 0 {
                match next_nl(&self.input_buffer, k) {
                    Some(nl) => {
                        let ns = prefix_bytes(self.input_buffer.as_slice(), k, nl + 1, self.cursor_pos);
                        let e = match next_nl(&self.input_buffer, nl + 1) {
                            Some(e) => e,
                            None => self.input_buffer.len(),
                        };
                        let ne = prefix_bytes(self.input_buffer.as_slice(), nl + 1, e, ns);
                        self.cursor_pos = ns + if col <= ne - ns { col } else { ne - ns };
                        changed = true;
                    },
                    None => {},
                }
            }
        } else if key == 46 {
            let (k, rest) = fit_exec(self.input_buffer.as_slice(), self.cursor_pos);
            if rest == 0 && k < self.input_buffer.len() {
                proof {
                    lemma_blen_insert_remove(s0, k as int, ' ');
                }
                self.input_buffer.remove(k);
                changed = true;
            }
        } else if key == 1039 {
            let (k, _rest) = fit_exec(self.input_buffer.as_slice(), self.cursor_pos);
            proof {
                lemma_fit_le(s0, c0 as nat);
                lemma_fit_all(s0, c0 as nat);
            }
            if k < self.input_buffer.len() {
                self.cursor_pos = self.cursor_pos + 1;
                changed = true;
            }
        }
        if changed {
            self.redraw_editor(env);
        } else {
            proof { lemma_sent_none(b0); }
        }
        proof {
            if 32 <= key <= 126 {
                assert(((key as u8) as char) == key as char);
            }
            assert(self@ == term_key_editor(t0, reg, me, key).model);
        }
    }

    /// Handles one message.
    pub fn handle_message(&mut self, env: &mut SyscallEnv, payload: MessagePayload)
        requires
            old(env).wf(),
            old(self).wf(),
        ensures
            final(self).pid == old(self).pid,
            final(self).wf(),
            env_frame(old(env), final(env)),
            ({
                let st = term_message(old(self)@, old(env).registry@, old(env).pid, payload);
                &&& final(self)@ == st.model
                &&& sent_views(old(env).ipc@, final(env).ipc@, st.outs)
                &&& calls_grew(old(env), final(env), st.calls)
            }),
    {
        let ghost b0 = env.ipc@;
        let ghost hv0 = host_views(env.host.calls@);
        assert(hv0 + Seq::<HostView>::empty() =~= hv0);
        match payload {
            MessagePayload::KeyPress { key_code } => {
                if self.edit_state.is_some() {
                    self.key_editor(env, key_code);
                } else {
                    self.key_line(env, key_code);
                }
            },
            MessagePayload::WindowClosed { id } => {
                if self.window_id == Some(id) {
                    self.window_id = None;
                }
                proof { lemma_sent_none(b0); }
            },
            MessagePayload::FileContents { path, content } => {
                let matches = match &self.edit_state {
                    Some(f) => crate::text::str_eq(f.as_str(), path.as_str()),
                    None => false,
                };
                if matches {
                    let nbytes = content.as_str().as_bytes().len();
                    self.input_buffer = chars_of(content.as_str());
                    self.cursor_pos = nbytes;
                    self.redraw_editor(env);
                } else {
                    proof { lemma_sent_none(b0); }
                }
            },
            _ => {
                proof { lemma_sent_none(b0); }
            },
        }
    }
}

/// `payload` is what `pv` describes.
pub open spec fn payload_matches(payload: MessagePayload, pv: PayloadView) -> bool {
    crate::ipc::payload_view(payload) == pv
}

} // verus!
