//! The terminal's state, its model, and what each key does to it.

use crate::host::HostView;
use crate::ipc::{MsgView, PayloadView, ProcessId};
use crate::paths::{absolute, cd_target};
use crate::text::{blen, fit, is_boundary, trim, words};
use vstd::prelude::*;
use vstd::utf8::{encode_utf8, is_ascii_chars};

verus! {

pub struct TerminalProcess {
    pub pid: ProcessId,
    pub launched: bool,
    pub window_id: Option<u32>,
    pub input_buffer: Vec<char>,
    pub prompt: String,
    pub cursor_pos: usize,
    pub cwd: String,
    pub edit_state: Option<String>,
    pub history: Vec<Vec<char>>,
    pub history_index: usize,
}

/// The terminal as a mathematical value.
pub struct TermModel {
    pub pid: ProcessId,
    pub launched: bool,
    pub window_id: Option<u32>,
    pub input: Seq<char>,
    pub prompt: Seq<char>,
    pub cursor: usize,
    pub cwd: Seq<char>,
    pub edit_state: Option<Seq<char>>,
    pub history: Seq<Seq<char>>,
    pub history_index: usize,
}

impl TerminalProcess {
    pub open spec fn view(&self) -> TermModel {
        TermModel {
            pid: self.pid,
            launched: self.launched,
            window_id: self.window_id,
            input: self.input_buffer@,
            prompt: self.prompt@,
            cursor: self.cursor_pos,
            cwd: self.cwd@,
            edit_state: match self.edit_state {
                Some(s) => Some(s@),
                None => None,
            },
            history: self.history@.map_values(|h: Vec<char>| h@),
            history_index: self.history_index,
        }
    }

    /// In the line editor the cursor stays within the line, and the line,
    /// like every line in the history, is ASCII (so that its characters
    /// and its bytes are counted alike); in the editor, where the cursor is
    /// a byte offset, the text's UTF-8 length is a `usize`.
    pub open spec fn wf(&self) -> bool {
        &&& self.edit_state is None ==> self.cursor_pos <= self.input_buffer@.len()
        &&& self.edit_state is None ==> is_ascii_chars(self.input_buffer@)
        &&& forall|i: int| 0 <= i < self.history@.len() ==> is_ascii_chars(#[trigger] self.history@[i]@)
        &&& self.edit_state is Some ==> blen(self.input_buffer@) <= usize::MAX
        &&& self.history_index <= self.history@.len()
    }
}

/// What one message does: the new state, the messages sent and the host
/// requests made.
pub struct TermStep {
    pub model: TermModel,
    pub outs: Seq<MsgView>,
    pub calls: Seq<HostView>,
}

pub open spec fn tstep(model: TermModel, outs: Seq<MsgView>, calls: Seq<HostView>) -> TermStep {
    TermStep { model, outs, calls }
}

pub open spec fn then(a: TermStep, outs: Seq<MsgView>, calls: Seq<HostView>) -> TermStep {
    TermStep { model: a.model, outs: a.outs + outs, calls: a.calls + calls }
}

/// The prompt shown while in directory `cwd`.
pub open spec fn prompt_for(cwd: Seq<char>) -> Seq<char> {
    "root@monkeyos:"@ + cwd + "# "@
}

pub open spec fn display_pid(reg: Map<Seq<char>, ProcessId>) -> Option<ProcessId> {
    if reg.dom().contains("display"@) { Some(reg["display"@]) } else { None }
}

/// A message to the display about the terminal window, if there is both a
/// window and a display.
pub open spec fn to_display(t: TermModel, reg: Map<Seq<char>, ProcessId>, me: ProcessId, p: spec_fn(u32) -> PayloadView) -> Seq<MsgView> {
    match (t.window_id, display_pid(reg)) {
        (Some(id), Some(d)) => seq![MsgView { sender: me, receiver: d, payload: p(id) }],
        _ => Seq::empty(),
    }
}

pub open spec fn print_v(t: TermModel, reg: Map<Seq<char>, ProcessId>, me: ProcessId, text: Seq<char>) -> Seq<MsgView> {
    to_display(t, reg, me, |id: u32| PayloadView::AppendOverlay { id, text })
}

pub open spec fn input_line_v(t: TermModel, reg: Map<Seq<char>, ProcessId>, me: ProcessId) -> Seq<MsgView> {
    to_display(t, reg, me, |id: u32| PayloadView::InputLine {
        id,
        prompt: if t.edit_state is Some { Seq::empty() } else { t.prompt },
        input: t.input,
        cursor_pos: t.cursor as u32,
    })
}

pub open spec fn editor_v(t: TermModel, reg: Map<Seq<char>, ProcessId>, me: ProcessId) -> Seq<MsgView> {
    to_display(t, reg, me, |id: u32| PayloadView::Editor { id, content: t.input, cursor_pos: t.cursor as u32 })
}

pub open spec fn clear_v(t: TermModel, reg: Map<Seq<char>, ProcessId>, me: ProcessId) -> Seq<MsgView> {
    to_display(t, reg, me, |id: u32| PayloadView::ClearOverlay { id })
}

// ---------------------------------------------------------------------
// Cursor movement in the editor

/// The index of the last newline before index `k`, or -1.
pub open spec fn last_nl_before(s: Seq<char>, k: int) -> int
    decreases k,
{
    if k <= 0 {
        -1
    } else if s[k - 1] == '\n' {
        k - 1
    } else {
        last_nl_before(s, k - 1)
    }
}

/// The index of the first newline at or after index `k`, or -1.
pub open spec fn next_nl_from(s: Seq<char>, k: int) -> int
    decreases s.len() - k,
{
    if k < 0 || k >= s.len() {
        -1
    } else if s[k] == '\n' {
        k
    } else {
        next_nl_from(s, k + 1)
    }
}

pub open spec fn min_int(a: int, b: int) -> int {
    if a <= b { a } else { b }
}

/// Where the cursor goes on ArrowUp, counted in characters from character
/// index `c`: the same column of the line above, or that line's end if it
/// is shorter; `None` on the first line. The editor takes the count as its
/// new byte offset as it is.
pub open spec fn cursor_up(s: Seq<char>, c: int) -> Option<int> {
    let line_start = last_nl_before(s, c) + 1;
    if line_start > 0 {
        let prev_start = last_nl_before(s, line_start - 1) + 1;
        Some(prev_start + min_int(c - line_start, line_start - 1 - prev_start))
    } else {
        None
    }
}

/// The editor's cursor `c` is a byte offset into the UTF-8 text, while
/// ArrowUp and ArrowDown measure columns by counting characters up to
/// character index `c` (or the end of the text, if `c` lies beyond it).
pub open spec fn char_col_index(s: Seq<char>, c: int) -> int {
    min_int(c, s.len() as int)
}

/// Where the cursor goes on ArrowDown: from the line that holds byte `c`,
/// to the byte that is the column's number of bytes into the line below,
/// or that line's end if it is shorter; `None` on the last line, or when
/// byte `c` falls inside a character (where slicing the text at `c` would
/// stop the program).
pub open spec fn cursor_down(s: Seq<char>, c: int) -> Option<int> {
    let m = char_col_index(s, c);
    let col = m - (last_nl_before(s, m) + 1);
    let nl = next_nl_from(s, fit(s, c as nat) as int);
    if is_boundary(s, c) && nl >= 0 {
        let next_start = blen(s.take(nl + 1)) as int;
        let e = next_nl_from(s, nl + 1);
        let next_end = blen(s.take(if e >= 0 { e } else { s.len() as int })) as int;
        Some(next_start + min_int(col, next_end - next_start))
    } else {
        None
    }
}

/// Where typing at byte `c` inserts: the character that starts there.
/// `None` where `c` falls inside a character (inserting there would stop
/// the program) or the text's length in bytes would no longer be a
/// `usize`.
pub open spec fn insert_index(s: Seq<char>, c: int) -> Option<int> {
    if is_boundary(s, c) && blen(s) < usize::MAX {
        Some(fit(s, c as nat) as int)
    } else {
        None
    }
}

/// The character that starts at byte `c`, if one does (removing from
/// inside a character, or at the end, would stop the program).
pub open spec fn char_at_byte(s: Seq<char>, c: int) -> Option<int> {
    if is_boundary(s, c) && fit(s, c as nat) < s.len() {
        Some(fit(s, c as nat) as int)
    } else {
        None
    }
}

// ---------------------------------------------------------------------
// Keys

/// The bytes handed to the host to run `cmd` through the shell.
pub open spec fn sh_args(cmd: Seq<char>) -> Seq<u8> {
    encode_utf8("/bin/sh"@) + seq![0u8] + encode_utf8("-c"@) + seq![0u8] + encode_utf8(cmd) + seq![0u8]
}

pub open spec fn help_lines() -> (Seq<char>, Seq<char>) {
    (
        "Available commands: help, clear, cd, ls, cat, echo, mkdir, rm, touch, pwd, sh, edit\n"@,
        "Try: ls /bin\n"@,
    )
}

/// Enter in the line editor: run the line.
pub open spec fn term_execute(t: TermModel, reg: Map<Seq<char>, ProcessId>, me: ProcessId) -> TermStep {
    let cmd = trim(t.input);
    let nl_calls = match t.window_id {
        Some(id) => seq![HostView::PrintDirect { id, text: "\n"@ }],
        None => Seq::empty(),
    };
    if cmd.len() == 0 {
        let t1 = TermModel { input: Seq::empty(), cursor: 0, ..t };
        tstep(t1, print_v(t1, reg, me, t1.prompt) + input_line_v(t1, reg, me), nl_calls)
    } else {
        let parts = words(cmd);
        let program = parts[0];
        let body: TermStep = if program == "help"@ {
            tstep(t, print_v(t, reg, me, help_lines().0) + print_v(t, reg, me, help_lines().1), Seq::empty())
        } else if program == "clear"@ {
            tstep(t, clear_v(t, reg, me), Seq::empty())
        } else if program == "edit"@ && parts.len() >= 2 {
            tstep(t, Seq::empty(), Seq::empty())
        } else if program == "edit"@ {
            tstep(t, print_v(t, reg, me, "Usage: edit <filename>\n"@), Seq::empty())
        } else if program == "cd"@ {
            let cwd = cd_target(t.cwd, if parts.len() > 1 { Some(parts[1]) } else { None });
            tstep(TermModel { cwd, prompt: prompt_for(cwd), ..t }, Seq::empty(), Seq::empty())
        } else {
            tstep(t, Seq::empty(), seq![HostView::Execve {
                args: sh_args(cmd),
                cwd: t.cwd,
                stdin: None,
                stdout: None,
                terminal_id: match t.window_id { Some(id) => id, None => 0 },
                route_output_to: t.window_id,
            }])
        };
        if program == "edit"@ && parts.len() >= 2 {
            let filename = absolute(t.cwd, parts[1]);
            let t1 = TermModel { edit_state: Some(filename), input: Seq::empty(), cursor: 0, ..t };
            tstep(t1, Seq::empty(), nl_calls.push(HostView::ReadFile { requester: me, path: filename }))
        } else {
            let t0 = body.model;
            let t1 = TermModel {
                history: t0.history.push(t0.input),
                history_index: (t0.history.len() + 1) as usize,
                input: Seq::empty(),
                cursor: 0,
                ..t0
            };
            tstep(t1, body.outs + print_v(t1, reg, me, t1.prompt) + input_line_v(t1, reg, me), nl_calls + body.calls)
        }
    }
}

pub open spec fn is_printable(code: u32) -> bool {
    32 <= code <= 126
}

/// A key in the line editor. The line holds only ASCII (see `wf`), so its
/// cursor counts characters and bytes alike.
pub open spec fn term_key_line(t: TermModel, reg: Map<Seq<char>, ProcessId>, me: ProcessId, key: u32) -> TermStep {
    let quiet = tstep(t, Seq::empty(), Seq::empty());
    if key == 13 {
        term_execute(t, reg, me)
    } else if key == 8 {
        if t.cursor > 0 {
            let t1 = TermModel { cursor: (t.cursor - 1) as usize, input: t.input.remove(t.cursor - 1), ..t };
            tstep(t1, input_line_v(t1, reg, me), Seq::empty())
        } else {
            quiet
        }
    } else if key == 1037 {
        if t.cursor > 0 {
            let t1 = TermModel { cursor: (t.cursor - 1) as usize, ..t };
            tstep(t1, input_line_v(t1, reg, me), Seq::empty())
        } else {
            quiet
        }
    } else if key == 1039 {
        if t.cursor < t.input.len() {
            let t1 = TermModel { cursor: (t.cursor + 1) as usize, ..t };
            tstep(t1, input_line_v(t1, reg, me), Seq::empty())
        } else {
            quiet
        }
    } else if key == 1038 {
        if t.history.len() > 0 && t.history_index > 0 && t.history_index - 1 < t.history.len() {
            let i = (t.history_index - 1) as usize;
            let t1 = TermModel { history_index: i, input: t.history[i as int], cursor: t.history[i as int].len() as usize, ..t };
            tstep(t1, input_line_v(t1, reg, me), Seq::empty())
        } else {
            quiet
        }
    } else if key == 1040 {
        if t.history_index < t.history.len() {
            let i = (t.history_index + 1) as usize;
            let line = if i == t.history.len() { Seq::<char>::empty() } else { t.history[i as int] };
            let t1 = TermModel { history_index: i, input: line, cursor: line.len() as usize, ..t };
            tstep(t1, input_line_v(t1, reg, me), Seq::empty())
        } else {
            quiet
        }
    } else if is_printable(key) {
        let t1 = TermModel { input: t.input.insert(t.cursor as int, key as char), cursor: (t.cursor + 1) as usize, ..t };
        tstep(t1, input_line_v(t1, reg, me), Seq::empty())
    } else {
        quiet
    }
}

/// A key in the editor. The cursor counts bytes of the UTF-8 text.
pub open spec fn term_key_editor(t: TermModel, reg: Map<Seq<char>, ProcessId>, me: ProcessId, key: u32) -> TermStep {
    let quiet = tstep(t, Seq::empty(), Seq::empty());
    let moved = |c: int| {
        let t1 = TermModel { cursor: c as usize, ..t };
        tstep(t1, editor_v(t1, reg, me), Seq::empty())
    };
    let typed = |ch: char| match insert_index(t.input, t.cursor as int) {
        Some(k) => {
            let t1 = TermModel { input: t.input.insert(k, ch), cursor: (t.cursor + 1) as usize, ..t };
            tstep(t1, editor_v(t1, reg, me), Seq::empty())
        },
        None => quiet,
    };
    if key == 19 {
        match t.edit_state {
            Some(f) => tstep(t, Seq::empty(), seq![HostView::WriteFile { path: f, content: t.input }]),
            None => quiet,
        }
    } else if key == 17 {
        let t1 = TermModel { edit_state: None, input: Seq::empty(), cursor: 0, ..t };
        tstep(t1, clear_v(t1, reg, me) + print_v(t1, reg, me, "\n"@) + print_v(t1, reg, me, t1.prompt) + input_line_v(t1, reg, me), Seq::empty())
    } else if key == 13 {
        typed('\n')
    } else if key == 8 {
        if t.cursor > 0 {
            match char_at_byte(t.input, t.cursor - 1) {
                Some(k) => {
                    let t1 = TermModel { cursor: (t.cursor - 1) as usize, input: t.input.remove(k), ..t };
                    tstep(t1, editor_v(t1, reg, me), Seq::empty())
                },
                None => quiet,
            }
        } else {
            quiet
        }
    } else if key == 1037 {
        if t.cursor > 0 { moved(t.cursor - 1) } else { quiet }
    } else if key == 1038 {
        match cursor_up(t.input, char_col_index(t.input, t.cursor as int)) {
            Some(c) => moved(c),
            None => quiet,
        }
    } else if key == 1040 {
        match cursor_down(t.input, t.cursor as int) {
            Some(c) => moved(c),
            None => quiet,
        }
    } else if key == 46 {
        match char_at_byte(t.input, t.cursor as int) {
            Some(k) => {
                let t1 = TermModel { input: t.input.remove(k), ..t };
                tstep(t1, editor_v(t1, reg, me), Seq::empty())
            },
            None => quiet,
        }
    } else if key == 1039 {
        if t.cursor < blen(t.input) { moved(t.cursor + 1) } else { quiet }
    } else if is_printable(key) {
        typed(key as char)
    } else {
        quiet
    }
}

/// What one message does to the terminal.
pub open spec fn term_message(t: TermModel, reg: Map<Seq<char>, ProcessId>, me: ProcessId, p: crate::ipc::MessagePayload) -> TermStep {
    match p {
        crate::ipc::MessagePayload::KeyPress { key_code } => if t.edit_state is Some {
            term_key_editor(t, reg, me, key_code)
        } else {
            term_key_line(t, reg, me, key_code)
        },
        crate::ipc::MessagePayload::WindowClosed { id } => tstep(
            if t.window_id == Some(id) { TermModel { window_id: None, ..t } } else { t },
            Seq::empty(),
            Seq::empty(),
        ),
        crate::ipc::MessagePayload::FileContents { path, content } => if t.edit_state == Some(path@) {
            let t1 = TermModel { input: content@, cursor: blen(content@) as usize, ..t };
            tstep(t1, editor_v(t1, reg, me), Seq::empty())
        } else {
            tstep(t, Seq::empty(), Seq::empty())
        },
        _ => tstep(t, Seq::empty(), Seq::empty()),
    }
}

} // verus!
