//! Creating the terminal, opening its window, and one time slice.

use super::keys::{calls_grew, env_frame, prompt_exec};
use super::model::{input_line_v, print_v, prompt_for, tstep, term_message, TermModel, TermStep, TerminalProcess};
use crate::api::create_window;
use crate::host::{host_views, HostView};
use crate::ipc::{
    bus_send_all, bus_with_queue, lemma_receive_through_sends, lemma_send_all_concat, lemma_sent_chain,
    lemma_sent_none, msg_views, queue_in, sent_views, Message, MsgView, PayloadView, ProcessId,
};
use crate::process::Process;
use crate::sys::{SyscallEnv, World};
use crate::text::copy_str;
use vstd::prelude::*;

verus! {

pub open spec fn welcome_text() -> Seq<char> {
    "MonkeyOS Terminal v0.1\nType 'help' for commands.\n\n"@
}

/// Opening the terminal window on the first slice in which a window
/// manager is registered. The second value is the next free window id.
pub open spec fn term_launch(t: TermModel, reg: Map<Seq<char>, ProcessId>, me: ProcessId, next_id: u32) -> (TermStep, u32) {
    if t.launched {
        (tstep(t, Seq::empty(), Seq::empty()), next_id)
    } else if reg.dom().contains("wm"@) {
        let t1 = TermModel { window_id: Some(next_id), ..t };
        let create = seq![MsgView {
            sender: me,
            receiver: reg["wm"@],
            payload: PayloadView::CreateWindow { id: next_id, x: 100, y: 100, w: 600, h: 400, title: "Terminal"@, owner: me },
        }];
        (
            tstep(
                TermModel { launched: true, ..t1 },
                create + print_v(t1, reg, me, welcome_text()) + print_v(t1, reg, me, t1.prompt) + input_line_v(t1, reg, me),
                Seq::empty(),
            ),
            vstd::wrapping::u32_specs::wrapping_add(next_id, 1),
        )
    } else {
        (tstep(t, Seq::empty(), seq![HostView::Log { text: "[API Error] Window Manager service not found."@ }]), next_id)
    }
}

/// Working through `msgs` in order.
pub open spec fn term_fold(t: TermModel, reg: Map<Seq<char>, ProcessId>, me: ProcessId, msgs: Seq<Message>) -> TermStep
    decreases msgs.len(),
{
    if msgs.len() == 0 {
        tstep(t, Seq::empty(), Seq::empty())
    } else {
        let a = term_fold(t, reg, me, msgs.drop_last());
        let b = term_message(a.model, reg, me, msgs.last().payload);
        TermStep { model: b.model, outs: a.outs + b.outs, calls: a.calls + b.calls }
    }
}

/// A terminal in the root directory that has not opened its window yet.
pub open spec fn term_initial(pid: ProcessId) -> TermModel {
    TermModel {
        pid,
        launched: false,
        window_id: None,
        input: Seq::empty(),
        prompt: "root@monkeyos:/# "@,
        cursor: 0,
        cwd: "/"@,
        edit_state: None,
        history: Seq::empty(),
        history_index: 0,
    }
}

impl TerminalProcess {
    /// A terminal in the root directory that has not opened its window yet.
    pub fn new(pid: ProcessId) -> (t: Self)
        ensures
            t.wf(),
            t@ == term_initial(pid),
    {
        let t = Self {
            pid,
            launched: false,
            window_id: None,
            input_buffer: Vec::new(),
            prompt: copy_str("root@monkeyos:/# "),
            cursor_pos: 0,
            cwd: copy_str("/"),
            edit_state: None,
            history: Vec::new(),
            history_index: 0,
        };
        assert(t@.history =~= Seq::<Seq<char>>::empty());
        t
    }

    /// Makes the prompt show the working directory.
    pub fn update_prompt(&mut self)
        ensures
            final(self).pid == old(self).pid,
            final(self)@ == (TermModel { prompt: prompt_for(old(self)@.cwd), ..old(self)@ }),
            final(self).wf() == old(self).wf(),
    {
        self.prompt = prompt_exec(self.cwd.as_str());
    }

    fn launch(&mut self, env: &mut SyscallEnv)
        requires
            old(env).wf(),
            old(self).wf(),
        ensures
            final(self).pid == old(self).pid,
            final(self).wf(),
            final(env).wf(),
            final(env).pid == old(env).pid,
            final(env).registry == old(env).registry,
            final(env).host.now_ms == old(env).host.now_ms,
            final(env).host.tz_offset_ms == old(env).host.tz_offset_ms,
            ({
                let (st, next) = term_launch(old(self)@, old(env).registry@, old(env).pid, old(env).host.next_window_id);
                &&& final(self)@ == st.model
                &&& final(env).host.next_window_id == next
                &&& sent_views(old(env).ipc@, final(env).ipc@, st.outs)
                &&& calls_grew(old(env), final(env), st.calls)
            }),
    {
        let ghost b0 = env.ipc@;
        let ghost reg = env.registry@;
        let ghost me = env.pid;
        let ghost hv0 = host_views(env.host.calls@);
        if self.launched {
            proof { lemma_sent_none(b0); }
            assert(hv0 + Seq::<HostView>::empty() =~= hv0);
            return;
        }
        match create_window(env, 100, 100, 600, 400, "Terminal") {
            Some(handle) => {
                let ghost b1 = env.ipc@;
                self.window_id = Some(handle.id);
                let ghost t1 = self@;
                self.print(env, copy_str("MonkeyOS Terminal v0.1\nType 'help' for commands.\n\n"));
                let ghost b2 = env.ipc@;
                let p = self.prompt.clone();
                self.print(env, p);
                let ghost b3 = env.ipc@;
                self.redraw_input_line(env);
                self.launched = true;
                proof {
                    let create = seq![MsgView {
                        sender: me,
                        receiver: reg["wm"@],
                        payload: PayloadView::CreateWindow { id: handle.id, x: 100, y: 100, w: 600, h: 400, title: "Terminal"@, owner: me },
                    }];
                    lemma_sent_chain(b0, b1, b2, create, print_v(t1, reg, me, welcome_text()));
                    lemma_sent_chain(b0, b2, b3, create + print_v(t1, reg, me, welcome_text()), print_v(t1, reg, me, t1.prompt));
                    lemma_sent_chain(b0, b3, env.ipc@, create + print_v(t1, reg, me, welcome_text()) + print_v(t1, reg, me, t1.prompt), input_line_v(t1, reg, me));
                    assert(hv0 + Seq::<HostView>::empty() =~= hv0);
                }
            },
            None => {
                proof {
                    lemma_sent_none(b0);
                    assert(hv0.push(HostView::Log { text: "[API Error] Window Manager service not found."@ }) =~= hv0
                        + seq![HostView::Log { text: "[API Error] Window Manager service not found."@ }]);
                }
            },
        }
    }
}

impl Process for TerminalProcess {
    open spec fn slice(&self, b: World, after: Self, a: World) -> bool {
        let (l, next) = term_launch(self@, b.registry, b.pid, b.next_window_id);
        let f = term_fold(l.model, b.registry, b.pid, queue_in(b.bus, b.pid));
        &&& after@ == f.model
        &&& a == (World { bus: a.bus, calls: a.calls, next_window_id: next, ..b })
        &&& host_views(a.calls) == host_views(b.calls) + l.calls + f.calls
        &&& exists|o: Seq<Message>| msg_views(o) == l.outs + f.outs && #[trigger] a.bus == bus_send_all(bus_with_queue(b.bus, b.pid, Seq::empty()), o)
    }

    open spec fn process_id(&self) -> ProcessId {
        self@.pid
    }

    open spec fn inv(&self) -> bool {
        self.wf()
    }

    fn id(&self) -> (r: ProcessId)
        ensures
            r == self@.pid,
    {
        self.pid
    }

    fn name(&self) -> (r: &str)
        ensures
            r@ == "terminal"@,
    {
        "terminal"
    }

    /// Opens the window if that has not happened yet, then handles every
    /// message that was waiting at the start of the slice.
    #[verifier::rlimit(40)]
    fn tick(&mut self, env: &mut SyscallEnv) -> (alive: bool)
        ensures
            alive,
            ({
                let (l, next) = term_launch(old(self)@, old(env).registry@, old(env).pid, old(env).host.next_window_id);
                let f = term_fold(l.model, old(env).registry@, old(env).pid, queue_in(old(env).ipc@, old(env).pid));
                &&& final(self)@ == f.model
                &&& final(env).host.next_window_id == next
                &&& host_views(final(env).host.calls@) == host_views(old(env).host.calls@) + l.calls + f.calls
                &&& exists|o: Seq<Message>|
                    msg_views(o) == l.outs + f.outs
                    && #[trigger] final(env).ipc@ == bus_send_all(bus_with_queue(old(env).ipc@, old(env).pid, Seq::empty()), o)
            }),
            final(env).host.now_ms == old(env).host.now_ms,
            final(env).host.tz_offset_ms == old(env).host.tz_offset_ms,
    {
        let ghost b0 = env.ipc@;
        let ghost me = env.pid;
        let ghost reg = env.registry@;
        let ghost q0 = queue_in(b0, me);
        let ghost hv0 = host_views(env.host.calls@);
        let n = env.ipc.pending(env.pid);
        self.launch(env);
        let ghost l = term_launch(old(self)@, reg, me, old(env).host.next_window_id).0;
        let ghost ol = choose|o: Seq<Message>| msg_views(o) == l.outs && env.ipc@ == bus_send_all(b0, o);
        let ghost mut of: Seq<Message> = Seq::empty();
        let ghost t1 = self@;
        let ghost next = env.host.next_window_id;
        let mut k: usize = 0;
        proof {
            assert(q0.skip(0) =~= q0);
            assert(q0.take(0) =~= Seq::<Message>::empty());
            if b0.dom().contains(me) {
                assert(bus_with_queue(b0, me, q0) =~= b0);
            }
            assert(ol + of =~= ol);
            assert(msg_views(of) =~= Seq::<MsgView>::empty());
            assert(l.calls + Seq::<HostView>::empty() =~= l.calls);
        }
        while k < n
            invariant
                env.wf(),
                self.wf(),
                env.pid == me,
                env.registry@ == reg,
                env.registry == old(env).registry,
                env.host.now_ms == old(env).host.now_ms,
                env.host.tz_offset_ms == old(env).host.tz_offset_ms,
                env.host.next_window_id == next,
                self.pid == old(self).pid,
                k <= n,
                n == q0.len(),
                q0 == queue_in(b0, me),
                msg_views(ol) == l.outs,
                self@ == term_fold(t1, reg, me, q0.take(k as int)).model,
                msg_views(of) == term_fold(t1, reg, me, q0.take(k as int)).outs,
                env.ipc@ == bus_send_all(bus_with_queue(b0, me, q0.skip(k as int)), ol + of),
                host_views(env.host.calls@) == hv0 + l.calls + term_fold(t1, reg, me, q0.take(k as int)).calls,
            decreases n - k,
        {
            let ghost f = term_fold(t1, reg, me, q0.take(k as int));
            proof {
                lemma_receive_through_sends(b0, me, q0.skip(k as int), ol + of);
                assert(q0.skip(k as int).drop_first() =~= q0.skip(k + 1));
                assert(q0.skip(k as int)[0] == q0[k as int]);
                assert(q0.take(k + 1).drop_last() =~= q0.take(k as int));
                assert(q0.take(k + 1).last() == q0[k as int]);
            }
            let msg = env.recv_msg();
            match msg {
                Some(msg) => {
                    let ghost before = env.ipc@;
                    self.handle_message(env, msg.payload);
                    proof {
                        let b = term_message(f.model, reg, me, q0[k as int].payload);
                        let o = choose|o: Seq<Message>| msg_views(o) == b.outs && env.ipc@ == bus_send_all(before, o);
                        lemma_send_all_concat(bus_with_queue(b0, me, q0.skip(k + 1)), ol + of, o);
                        assert(ol + of + o =~= ol + (of + o));
                        assert(msg_views(of + o) =~= msg_views(of) + msg_views(o));
                        of = of + o;
                        assert(hv0 + l.calls + f.calls + b.calls =~= hv0 + l.calls + (f.calls + b.calls));
                    }
                },
                None => {},
            }
            k = k + 1;
        }
        proof {
            assert(q0.skip(n as int) =~= Seq::<Message>::empty());
            assert(q0.take(n as int) =~= q0);
            assert(msg_views(ol + of) =~= l.outs + term_fold(t1, reg, me, q0).outs);
            assert(hv0 + l.calls + term_fold(t1, reg, me, q0).calls =~= hv0 + l.calls + term_fold(t1, reg, me, q0).calls);
        }
        true
    }
}

} // verus!
