//! The notepad: a line editor with open, save and save-as through the file
//! picker. Positions within lines count characters.
//!
//! What depends on measured text widths and on scroll offsets in fractions
//! of a pixel (placing the cursor by a click, scroll bars, drawing the
//! text) is the host's; this module keeps the document, the cursor, the
//! buttons and the dialogs.

use crate::host::{host_view, HostCall, HostView};
use crate::ipc::Rgba;
use crate::paths::{child_path, child_path_exec};
use crate::services::wm::arith::{add_w, wadd};
use crate::text::{chars_of, copy_str, join_char, join_char_exec, seq_views, split_char, split_char_exec, string_of, strip_cr, text_lines, text_lines_exec};
use crate::ui::list::append_cmds;
use crate::ui::picker::{picker_draw, FilePicker, PickerView};
use crate::ui::{button_draw, button_view, draw_views, inside, inside_exec, Button, ButtonView, DrawCmd, DrawView, Widget, Window};
use vstd::prelude::*;

verus! {

/// The document a file's text opens as: its lines, or one empty line.
pub open spec fn document_of(s: Seq<char>) -> Seq<Seq<char>> {
    let ls = text_lines(s);
    if ls.len() == 0 { seq![Seq::empty()] } else { ls }
}

/// The notepad as a mathematical value.
pub struct NoteView {
    pub win: Window,
    pub text: Seq<Seq<char>>,
    pub row: nat,
    pub col: nat,
    pub saving_as: bool,
    pub save_name: Seq<char>,
    pub save_pos: nat,
    pub current_file: Option<Seq<char>>,
    pub status: Seq<char>,
    pub picker: PickerView,
    pub open_btn: ButtonView,
    pub save_btn: ButtonView,
    pub save_as_btn: ButtonView,
    pub needs_autoscroll: bool,
    pub tick_count: u32,
    pub pending_open: Option<Seq<char>>,
}

pub open spec fn is_typed(key: u32) -> bool {
    32 <= key <= 126
}

pub open spec fn insert_at(s: Seq<char>, i: nat, c: char) -> Seq<char> {
    s.take(i as int).push(c) + s.skip(i as int)
}

pub open spec fn remove_at(s: Seq<char>, i: nat) -> Seq<char> {
    s.take(i as int) + s.skip(i as int + 1)
}

pub open spec fn min_nat(a: nat, b: nat) -> nat {
    if a < b { a } else { b }
}

/// Writing the document to `path`, lines joined by `\n`.
pub open spec fn save_v(path: Seq<char>, text: Seq<Seq<char>>) -> HostView {
    HostView::WriteFile { path, content: join_char(text, '\n') }
}

/// A key in the Save As box.
pub open spec fn save_as_key(n: NoteView, key: u32) -> (NoteView, Option<HostView>) {
    if key == 13 {
        let closed = NoteView { saving_as: false, picker: PickerView { is_open: false, ..n.picker }, ..n };
        if n.save_name.len() > 0 {
            let full = child_path(n.picker.path, n.save_name);
            (
                NoteView { current_file: Some(full), status: "Saved: "@ + full, ..closed },
                Some(save_v(full, n.text)),
            )
        } else {
            (closed, None)
        }
    } else if key == 8 {
        if n.save_pos > 0 && n.save_pos <= n.save_name.len() {
            (NoteView { save_name: remove_at(n.save_name, (n.save_pos - 1) as nat), save_pos: (n.save_pos - 1) as nat, ..n }, None)
        } else {
            (n, None)
        }
    } else if key == 1037 {
        (NoteView { save_pos: if n.save_pos > 0 { (n.save_pos - 1) as nat } else { n.save_pos }, ..n }, None)
    } else if key == 1039 {
        (NoteView { save_pos: if n.save_pos < n.save_name.len() { n.save_pos + 1 } else { n.save_pos }, ..n }, None)
    } else if key == 17 || key == 27 {
        (NoteView { saving_as: false, picker: PickerView { is_open: false, ..n.picker }, ..n }, None)
    } else if is_typed(key) {
        if n.save_pos <= n.save_name.len() {
            (NoteView { save_name: insert_at(n.save_name, n.save_pos, key as char), save_pos: n.save_pos + 1, ..n }, None)
        } else {
            (n, None)
        }
    } else {
        (n, None)
    }
}

/// A key in the document; `None` when the key does nothing there.
pub open spec fn edit_key(n: NoteView, key: u32) -> Option<NoteView> {
    let row = n.row;
    let col = n.col;
    let line = n.text[row as int];
    if key == 1037 {
        Some(if col > 0 {
            NoteView { col: (col - 1) as nat, ..n }
        } else if row > 0 {
            NoteView { row: (row - 1) as nat, col: n.text[row - 1].len(), ..n }
        } else {
            n
        })
    } else if key == 1039 {
        Some(if col < line.len() {
            NoteView { col: col + 1, ..n }
        } else if row < n.text.len() - 1 {
            NoteView { row: row + 1, col: 0, ..n }
        } else {
            n
        })
    } else if key == 1038 {
        Some(if row > 0 {
            NoteView { row: (row - 1) as nat, col: min_nat(col, n.text[row - 1].len()), ..n }
        } else {
            n
        })
    } else if key == 1040 {
        Some(if row < n.text.len() - 1 {
            NoteView { row: row + 1, col: min_nat(col, n.text[row as int + 1].len()), ..n }
        } else {
            n
        })
    } else if key == 8 {
        Some(if col > 0 {
            NoteView { text: n.text.update(row as int, remove_at(line, (col - 1) as nat)), col: (col - 1) as nat, ..n }
        } else if row > 0 {
            let prev = n.text[row - 1];
            let t1 = n.text.remove(row as int);
            NoteView { text: t1.update(row - 1, prev + line), row: (row - 1) as nat, col: prev.len(), ..n }
        } else {
            n
        })
    } else if key == 13 {
        Some(NoteView {
            text: n.text.update(row as int, line.take(col as int)).insert(row as int + 1, line.skip(col as int)),
            row: row + 1,
            col: 0,
            ..n
        })
    } else if is_typed(key) {
        Some(NoteView { text: n.text.update(row as int, insert_at(line, col, key as char)), col: col + 1, ..n })
    } else {
        None
    }
}

/// The edit that `key` asks for would reach past the end of the document
/// or of the cursor's line (as after opening a shorter file with the cursor
/// further down).
pub open spec fn edit_panics(n: NoteView, key: u32) -> bool {
    let len = n.text.len();
    let row = n.row;
    let col = n.col;
    if key == 1037 {
        col == 0 && row > 0 && row - 1 >= len
    } else if key == 1039 {
        row >= len
    } else if key == 1038 {
        row > 0 && row - 1 >= len
    } else if key == 1040 {
        false
    } else if key == 8 {
        if col > 0 { row >= len || col - 1 >= n.text[row as int].len() } else { row > 0 && row >= len }
    } else if key == 13 || is_typed(key) {
        row >= len || col > n.text[row as int].len()
    } else {
        false
    }
}

/// The key press would stop the notepad.
pub open spec fn key_panics(n: NoteView, key: u32) -> bool {
    !(n.picker.is_open && !n.saving_as) && !n.saving_as && edit_panics(n, key)
}

/// A key press: the new notepad, whether it was taken as typing (which
/// restarts the cursor's blink), whether to redraw, and a file to write.
pub open spec fn key_spec(n: NoteView, key: u32) -> (NoteView, bool, bool, Option<HostView>) {
    if n.picker.is_open && !n.saving_as {
        (n, false, false, None)
    } else if n.saving_as {
        let (n1, w) = save_as_key(n, key);
        (n1, true, true, w)
    } else {
        match edit_key(NoteView { tick_count: 0, ..n }, key) {
            Some(n1) => (NoteView { needs_autoscroll: true, status: "Edited"@, ..n1 }, true, true, None),
            None => (NoteView { tick_count: 0, ..n }, true, false, None),
        }
    }
}

/// Whether the text cursor is drawn at time `now_ms`: during the first half
/// of every second, and throughout the half second after the last key
/// typed at `last_typing_ms`.
pub open spec fn cursor_shown(now_ms: u128, last_typing_ms: u128) -> bool {
    now_ms % 1000 < 500 || (if now_ms >= last_typing_ms { now_ms - last_typing_ms } else { 0 }) < 500
}

/// Whether the text cursor is drawn at time `now_ms`.
pub fn cursor_blink_on(now_ms: u128, last_typing_ms: u128) -> (r: bool)
    ensures
        r == cursor_shown(now_ms, last_typing_ms),
{
    let since: u128 = if now_ms >= last_typing_ms { now_ms - last_typing_ms } else { 0 };
    now_ms % 1000 < 500 || since < 500
}

/// The last piece of a path.
pub open spec fn last_segment(path: Seq<char>) -> Seq<char> {
    split_char(path, '/').last()
}

/// The notepad.
pub struct Notepad {
    win: Window,
    btn_open: Button,
    btn_save: Button,
    btn_save_as: Button,
    status: String,
    picker: FilePicker,
    text: Vec<Vec<char>>,
    current_file: Option<String>,
    cursor_row: usize,
    cursor_col: usize,
    tick_count: u32,
    is_saving_as: bool,
    save_as_filename: Vec<char>,
    save_as_cursor_pos: usize,
    needs_autoscroll: bool,
    pending_open: Option<String>,
}

pub open spec fn opt_seq(o: Option<String>) -> Option<Seq<char>> {
    match o {
        Some(s) => Some(s@),
        None => None,
    }
}

/// What a key press gives back.
pub struct KeyResult {
    /// The key was taken as typing.
    pub typed: bool,
    /// 1 when the notepad needs to be redrawn.
    pub redraw: i32,
    /// A file to write.
    pub write: Option<HostCall>,
}

impl Notepad {
    pub closed spec fn view(&self) -> NoteView {
        NoteView {
            win: self.win,
            text: seq_views(self.text@),
            row: self.cursor_row as nat,
            col: self.cursor_col as nat,
            saving_as: self.is_saving_as,
            save_name: self.save_as_filename@,
            save_pos: self.save_as_cursor_pos as nat,
            current_file: opt_seq(self.current_file),
            status: self.status@,
            picker: self.picker.view(),
            open_btn: button_view(self.btn_open),
            save_btn: button_view(self.btn_save),
            save_as_btn: button_view(self.btn_save_as),
            needs_autoscroll: self.needs_autoscroll,
            tick_count: self.tick_count,
            pending_open: opt_seq(self.pending_open),
        }
    }

    /// There is always a line.
    pub closed spec fn wf(&self) -> bool {
        self.text@.len() >= 1
    }

    /// An empty document in window `win`; with a file argument, that file
    /// is to be opened.
    pub fn new(win: Window, arg: Option<String>) -> (n: Self)
        ensures
            n.wf(),
            n.view().text == seq![Seq::<char>::empty()],
            n.view().row == 0 && n.view().col == 0,
            !n.view().saving_as,
            n.view().status == "No file opened"@,
            n.view().pending_open == opt_seq(arg),
            n.view().current_file == opt_seq(arg),
            n.view().picker == crate::ui::picker::picker_initial(),
            n.view().open_btn == crate::ui::list::new_button("📂 Open"@, 80, 25),
            n.view().save_btn == crate::ui::list::new_button("💾 Save"@, 80, 25),
            n.view().save_as_btn == crate::ui::list::new_button("📝 Save As"@, 100, 25),
            n.view().win == win,
    {
        let mut text: Vec<Vec<char>> = Vec::new();
        text.push(Vec::new());
        let n = Self {
            win,
            btn_open: Button::new("📂 Open", 80, 25),
            btn_save: Button::new("💾 Save", 80, 25),
            btn_save_as: Button::new("📝 Save As", 100, 25),
            status: copy_str("No file opened"),
            picker: FilePicker::new(),
            text,
            current_file: match &arg {
                Some(p) => Some(p.clone()),
                None => None,
            },
            cursor_row: 0,
            cursor_col: 0,
            tick_count: 0,
            is_saving_as: false,
            save_as_filename: Vec::new(),
            save_as_cursor_pos: 0,
            needs_autoscroll: false,
            pending_open: arg,
        };
        assert(n.view().text =~= seq![Seq::<char>::empty()]);
        n
    }
}

fn remove_char(v: &mut Vec<char>, i: usize)
    requires
        i < old(v)@.len(),
    ensures
        final(v)@ == remove_at(old(v)@, i as nat),
{
    v.remove(i);
    assert(final(v)@ =~= remove_at(old(v)@, i as nat));
}

fn insert_char(v: &mut Vec<char>, i: usize, c: char)
    requires
        i <= old(v)@.len(),
    ensures
        final(v)@ == insert_at(old(v)@, i as nat, c),
{
    v.insert(i, c);
    assert(final(v)@ =~= insert_at(old(v)@, i as nat, c));
}

fn write_call(path: &String, text: &Vec<Vec<char>>) -> (c: HostCall)
    ensures
        host_view(c) == save_v(path@, seq_views(text@)),
{
    let content = join_char_exec(text, '\n');
    HostCall::WriteFile { path: path.clone(), content: string_of(content.as_slice()) }
}

impl Notepad {
    proof fn lemma_view_text(&self)
        ensures
            self.view().text.len() == self.text@.len(),
            forall|k: int| 0 <= k < self.text@.len() ==> #[trigger] self.view().text[k] == self.text@[k]@,
    {
    }

    fn save_as_key(&mut self, key: u32) -> (w: Option<HostCall>)
        requires
            old(self).wf(),
            old(self).view().saving_as,
        ensures
            final(self).wf(),
            ({
                let (n, wv) = save_as_key(old(self).view(), key);
                &&& final(self).view() == n
                &&& match w {
                    Some(c) => wv == Some(host_view(c)),
                    None => wv is None,
                }
            }),
    {
        if key == 13 {
            let mut w: Option<HostCall> = None;
            if self.save_as_filename.len() > 0 {
                let full_chars = child_path_exec(chars_of(self.picker.path().as_str()).as_slice(), self.save_as_filename.as_slice());
                let full = string_of(full_chars.as_slice());
                w = Some(write_call(&full, &self.text));
                let mut st = copy_str("Saved: ");
                st.append(full.as_str());
                self.status = st;
                self.current_file = Some(full);
            }
            self.is_saving_as = false;
            self.picker.close();
            w
        } else if key == 8 {
            if self.save_as_cursor_pos > 0 && self.save_as_cursor_pos <= self.save_as_filename.len() {
                remove_char(&mut self.save_as_filename, self.save_as_cursor_pos - 1);
                self.save_as_cursor_pos = self.save_as_cursor_pos - 1;
            }
            None
        } else if key == 1037 {
            if self.save_as_cursor_pos > 0 {
                self.save_as_cursor_pos = self.save_as_cursor_pos - 1;
            }
            None
        } else if key == 1039 {
            if self.save_as_cursor_pos < self.save_as_filename.len() {
                self.save_as_cursor_pos = self.save_as_cursor_pos + 1;
            }
            None
        } else if key == 17 || key == 27 {
            self.is_saving_as = false;
            self.picker.close();
            None
        } else if 32 <= key && key <= 126 {
            if self.save_as_cursor_pos <= self.save_as_filename.len() {
                let c = (key as u8) as char;
                assert(c == key as char);
                insert_char(&mut self.save_as_filename, self.save_as_cursor_pos, c);
                let l = self.save_as_filename.len();
                assert(self.save_as_cursor_pos < l);
                self.save_as_cursor_pos = self.save_as_cursor_pos + 1;
            }
            None
        } else {
            None
        }
    }

    fn edit_key(&mut self, key: u32) -> (handled: bool)
        requires
            old(self).wf(),
            !edit_panics(old(self).view(), key),
        ensures
            final(self).wf(),
            match edit_key(old(self).view(), key) {
                Some(n) => handled && final(self).view() == n,
                None => !handled && final(self).view() == old(self).view(),
            },
    {
        let row = self.cursor_row;
        let col = self.cursor_col;
        let ghost n = self.view();
        proof { self.lemma_view_text(); }
        if key == 1037 {
            if col > 0 {
                self.cursor_col = col - 1;
            } else if row > 0 {
                self.cursor_row = row - 1;
                self.cursor_col = self.text[row - 1].len();
            }
            true
        } else if key == 1039 {
            let l = self.text[row].len();
            if col < l {
                self.cursor_col = col + 1;
            } else if row < self.text.len() - 1 {
                self.cursor_row = row + 1;
                self.cursor_col = 0;
            }
            true
        } else if key == 1038 {
            if row > 0 {
                self.cursor_row = row - 1;
                let l = self.text[row - 1].len();
                self.cursor_col = if col < l { col } else { l };
            }
            true
        } else if key == 1040 {
            if row < self.text.len() - 1 {
                self.cursor_row = row + 1;
                let l = self.text[row + 1].len();
                self.cursor_col = if col < l { col } else { l };
            }
            true
        } else if key == 8 {
            if col > 0 {
                let mut line = self.text.remove(row);
                remove_char(&mut line, col - 1);
                self.text.insert(row, line);
                self.cursor_col = col - 1;
                assert(seq_views(self.text@) =~= n.text.update(row as int, remove_at(n.text[row as int], (col - 1) as nat)));
            } else if row > 0 {
                assert(row < self.text@.len());
                let current = self.text.remove(row);
                let mut prev = self.text.remove(row - 1);
                let plen = prev.len();
                let ghost p0 = prev@;
                let mut k: usize = 0;
                while k < current.len()
                    invariant
                        k <= current@.len(),
                        prev@ == p0 + current@.take(k as int),
                    decreases current@.len() - k,
                {
                    prev.push(current[k]);
                    k = k + 1;
                    assert(prev@ =~= p0 + current@.take(k as int));
                }
                assert(current@.take(current@.len() as int) =~= current@);
                self.text.insert(row - 1, prev);
                self.cursor_row = row - 1;
                self.cursor_col = plen;
                assert(seq_views(self.text@) =~= n.text.remove(row as int).update(row - 1, n.text[row - 1] + n.text[row as int]));
            }
            true
        } else if key == 13 {
            let mut line = self.text.remove(row);
            let rest = line.split_off(col);
            self.text.insert(row, line);
            let l = self.text.len();
            assert(row < l);
            self.text.insert(row + 1, rest);
            self.cursor_row = row + 1;
            self.cursor_col = 0;
            assert(seq_views(self.text@) =~= n.text.update(row as int, n.text[row as int].take(col as int)).insert(
                row as int + 1,
                n.text[row as int].skip(col as int),
            ));
            true
        } else if 32 <= key && key <= 126 {
            let c = (key as u8) as char;
            assert(c == key as char);
            let mut line = self.text.remove(row);
            insert_char(&mut line, col, c);
            let ll = line.len();
            assert(col < ll);
            self.text.insert(row, line);
            self.cursor_col = col + 1;
            assert(seq_views(self.text@) =~= n.text.update(row as int, insert_at(n.text[row as int], col as nat, c)));
            true
        } else {
            false
        }
    }

    /// A key press.
    pub fn handle_key_down(&mut self, key_code: u32) -> (r: KeyResult)
        requires
            old(self).wf(),
            !key_panics(old(self).view(), key_code),
        ensures
            final(self).wf(),
            ({
                let (n, typed, redraw, w) = key_spec(old(self).view(), key_code);
                &&& final(self).view() == n
                &&& r.typed == typed
                &&& r.redraw == (if redraw { 1i32 } else { 0i32 })
                &&& match r.write {
                    Some(c) => w == Some(host_view(c)),
                    None => w is None,
                }
            }),
    {
        if self.picker.is_open() && !self.is_saving_as {
            return KeyResult { typed: false, redraw: 0, write: None };
        }
        if self.is_saving_as {
            let w = self.save_as_key(key_code);
            return KeyResult { typed: true, redraw: 1, write: w };
        }
        self.tick_count = 0;
        if self.edit_key(key_code) {
            self.needs_autoscroll = true;
            self.status = copy_str("Edited");
            KeyResult { typed: true, redraw: 1, write: None }
        } else {
            KeyResult { typed: true, redraw: 0, write: None }
        }
    }
}

/// Opening a file: the document and the status line, by whether it could
/// be read.
pub open spec fn opened(n: NoteView, path: Seq<char>, content: Option<Seq<char>>) -> NoteView {
    match content {
        Some(c) => NoteView { text: document_of(c), status: "Opened "@ + path, pending_open: None, ..n },
        None => NoteView { status: "Error opening "@ + path, pending_open: None, ..n },
    }
}

/// Where the buttons are: the top bar starts 25 pixels below the top of
/// the window.
pub open spec fn content_y(n: NoteView) -> i32 {
    wadd(n.win.y, 25)
}

/// A release of the pointer over the open picker: during Save As the
/// chosen file's name fills the box and the picker stays open; otherwise
/// the chosen file is to be opened.
pub open spec fn picker_release(n: NoteView, mx: i32, my: i32) -> (NoteView, bool) {
    let (p1, r) = crate::ui::picker::picker_mouse_up(n.picker, mx, my, wadd(n.win.x, 70), wadd(content_y(n), 50));
    let n1 = NoteView { picker: p1, ..n };
    if n.saving_as {
        if !p1.is_open {
            let n2 = match p1.selected {
                Some(path) => NoteView {
                    save_name: last_segment(path),
                    save_pos: last_segment(path).len(),
                    picker: PickerView { selected: None, ..p1 },
                    ..n1
                },
                None => n1,
            };
            (NoteView { picker: PickerView { is_open: true, ..n2.picker }, ..n2 }, true)
        } else {
            (n1, r)
        }
    } else if !p1.is_open {
        match p1.selected {
            Some(path) => (
                NoteView { current_file: Some(path), pending_open: Some(path), picker: PickerView { selected: None, ..p1 }, ..n1 },
                r,
            ),
            None => (n1, r),
        }
    } else {
        (n1, r)
    }
}

impl Notepad {
    /// Whether the key would stop the notepad.
    pub fn key_would_panic(&self, key: u32) -> (r: bool)
        ensures
            r == key_panics(self.view(), key),
    {
        if (self.picker.is_open() && !self.is_saving_as) || self.is_saving_as {
            return false;
        }
        let len = self.text.len();
        let row = self.cursor_row;
        let col = self.cursor_col;
        proof { self.lemma_view_text(); }
        if key == 1037 {
            col == 0 && row > 0 && row - 1 >= len
        } else if key == 1039 {
            row >= len
        } else if key == 1038 {
            row > 0 && row - 1 >= len
        } else if key == 1040 {
            false
        } else if key == 8 {
            if col > 0 { row >= len || col - 1 >= self.text[row].len() } else { row > 0 && row >= len }
        } else if key == 13 || (32 <= key && key <= 126) {
            row >= len || col > self.text[row].len()
        } else {
            false
        }
    }

    /// The file that is to be opened, if any.
    pub fn wanted_file(&self) -> (r: Option<String>)
        ensures
            opt_seq(r) == self.view().pending_open,
    {
        match &self.pending_open {
            Some(p) => Some(p.clone()),
            None => None,
        }
    }

    /// Takes the contents of the file that was to be opened (`None` when it
    /// could not be read).
    pub fn file_loaded(&mut self, content: Option<String>)
        requires
            old(self).wf(),
        ensures
            final(self).wf(),
            match old(self).view().pending_open {
                Some(path) => final(self).view() == opened(old(self).view(), path, opt_seq(content)),
                None => final(self).view() == old(self).view(),
            },
    {
        match self.pending_open.take() {
            Some(path) => {
                match content {
                    Some(c) => {
                        let ghost cv = c@;
                        let chars = chars_of(c.as_str());
                        let mut lines = text_lines_exec(chars.as_slice());
                        if lines.len() == 0 {
                            lines.push(Vec::new());
                        }
                        proof {
                            assert(seq_views(lines@) =~= document_of(cv));
                        }
                        self.text = lines;
                        let mut st = copy_str("Opened ");
                        st.append(path.as_str());
                        self.status = st;
                    },
                    None => {
                        let mut st = copy_str("Error opening ");
                        st.append(path.as_str());
                        self.status = st;
                    },
                }
            },
            None => {},
        }
    }

    /// Puts the cursor where the host found a click to land.
    pub fn set_cursor(&mut self, row: usize, col: usize)
        requires
            row < old(self).view().text.len(),
            col <= old(self).view().text[row as int].len(),
        ensures
            final(self).view() == (NoteView { row: row as nat, col: col as nat, needs_autoscroll: false, ..old(self).view() }),
            final(self).wf() == old(self).wf(),
    {
        self.cursor_row = row;
        self.cursor_col = col;
        self.needs_autoscroll = false;
    }

    /// Once the host has scrolled to the cursor.
    pub fn autoscroll_done(&mut self)
        ensures
            final(self).view() == (NoteView { needs_autoscroll: false, ..old(self).view() }),
            final(self).wf() == old(self).wf(),
    {
        self.needs_autoscroll = false;
    }

    /// The frame's bookkeeping: the window moves, the tick count advances,
    /// and during Save As the picker stays open and a chosen file's name
    /// fills the box.
    pub fn frame(&mut self, x: i32, y: i32, w: i32, h: i32)
        ensures
            ({
                let n = old(self).view();
                let n1 = NoteView {
                    win: Window { x, y, w, h, ..n.win },
                    tick_count: vstd::wrapping::u32_specs::wrapping_add(n.tick_count, 1),
                    ..n
                };
                final(self).view() == if n.saving_as {
                    let p1 = PickerView { is_open: true, selected: None, ..n1.picker };
                    match n1.picker.selected {
                        Some(path) => NoteView { picker: p1, save_name: last_segment(path), ..n1 },
                        None => NoteView { picker: p1, ..n1 },
                    }
                } else {
                    n1
                }
            }),
            final(self).wf() == old(self).wf(),
    {
        self.win.x = x;
        self.win.y = y;
        self.win.w = w;
        self.win.h = h;
        self.tick_count = self.tick_count.wrapping_add(1);
        if self.is_saving_as {
            self.picker.set_open(true);
            match self.picker.take_selected() {
                Some(path) => {
                    let parts = split_char_exec(chars_of(path.as_str()).as_slice(), '/');
                    let name = crate::text::clone_chars(&parts[parts.len() - 1]);
                    self.save_as_filename = name;
                },
                None => {},
            }
        }
    }

    /// The pointer moves: over the open picker, or over the buttons.
    pub fn handle_mouse_move(&mut self, mx: i32, my: i32) -> (redraw: bool)
        ensures
            final(self).wf() == old(self).wf(),
            ({
                let n = old(self).view();
                let cy = content_y(n);
                if n.picker.is_open {
                    let (l, r) = crate::ui::list::list_mouse_move(n.picker.list, mx, my, crate::ui::picker::picker_geom(wadd(n.win.x, 70), wadd(cy, 50)));
                    final(self).view() == (NoteView { picker: PickerView { list: l, ..n.picker }, ..n }) && redraw == r
                } else {
                    let o = crate::ui::list::track(n.open_btn, mx, my, wadd(n.win.x, 10), wadd(cy, 8));
                    let s = crate::ui::list::track(n.save_btn, mx, my, wadd(n.win.x, 100), wadd(cy, 8));
                    let a = crate::ui::list::track(n.save_as_btn, mx, my, wadd(n.win.x, 190), wadd(cy, 8));
                    &&& final(self).view() == (NoteView { open_btn: o, save_btn: s, save_as_btn: a, ..n })
                    &&& redraw == (o.hovered != n.open_btn.hovered || s.hovered != n.save_btn.hovered || a.hovered != n.save_as_btn.hovered)
                }
            }),
    {
        let cy = add_w(self.win.y, 25);
        if self.picker.is_open() {
            return self.picker.handle_mouse_move(mx, my, add_w(self.win.x, 70), add_w(cy, 50));
        }
        let r1 = self.btn_open.handle_mouse_move(mx, my, add_w(self.win.x, 10), add_w(cy, 8));
        let r2 = self.btn_save.handle_mouse_move(mx, my, add_w(self.win.x, 100), add_w(cy, 8));
        let r3 = self.btn_save_as.handle_mouse_move(mx, my, add_w(self.win.x, 190), add_w(cy, 8));
        r1 || r2 || r3
    }

    /// A press: on the open picker, or on the buttons.
    pub fn handle_mouse_down(&mut self, mx: i32, my: i32) -> (redraw: bool)
        ensures
            final(self).wf() == old(self).wf(),
            ({
                let n = old(self).view();
                let cy = content_y(n);
                if n.picker.is_open {
                    let (l, r) = crate::ui::list::list_mouse_down(n.picker.list, mx, my, crate::ui::picker::picker_geom(wadd(n.win.x, 70), wadd(cy, 50)));
                    final(self).view() == (NoteView { picker: PickerView { list: l, ..n.picker }, ..n }) && redraw == r
                } else {
                    let o = crate::ui::list::press(n.open_btn, mx, my, wadd(n.win.x, 10), wadd(cy, 8));
                    let s = crate::ui::list::press(n.save_btn, mx, my, wadd(n.win.x, 100), wadd(cy, 8));
                    let a = crate::ui::list::press(n.save_as_btn, mx, my, wadd(n.win.x, 190), wadd(cy, 8));
                    &&& final(self).view() == (NoteView { open_btn: o, save_btn: s, save_as_btn: a, ..n })
                    &&& redraw == (inside(mx, my, wadd(n.win.x, 10), wadd(cy, 8), n.open_btn.w, n.open_btn.h)
                        || inside(mx, my, wadd(n.win.x, 100), wadd(cy, 8), n.save_btn.w, n.save_btn.h)
                        || inside(mx, my, wadd(n.win.x, 190), wadd(cy, 8), n.save_as_btn.w, n.save_as_btn.h))
                }
            }),
    {
        let cy = add_w(self.win.y, 25);
        if self.picker.is_open() {
            return self.picker.handle_mouse_down(mx, my, add_w(self.win.x, 70), add_w(cy, 50));
        }
        let r1 = self.btn_open.handle_mouse_down(mx, my, add_w(self.win.x, 10), add_w(cy, 8));
        let r2 = self.btn_save.handle_mouse_down(mx, my, add_w(self.win.x, 100), add_w(cy, 8));
        let r3 = self.btn_save_as.handle_mouse_down(mx, my, add_w(self.win.x, 190), add_w(cy, 8));
        r1 || r2 || r3
    }
}

/// The picker as `open` leaves it.
pub open spec fn picker_opened(p: PickerView) -> PickerView {
    crate::ui::picker::refreshed(
        PickerView { is_open: true, selected: None, list: crate::ui::list::ListView { scroll: 0, ..p.list }, ..p },
    )
}

pub open spec fn hit(b: ButtonView, mx: i32, my: i32, x: i32, y: i32) -> bool {
    b.pressed && inside(mx, my, x, y, b.w, b.h)
}

/// A release over the buttons (with the picker closed): Open opens the
/// picker, Save writes the document to its file, Save As starts the Save
/// As dialog.
pub open spec fn buttons_release(n: NoteView, mx: i32, my: i32) -> (NoteView, bool, Option<HostView>) {
    let cy = content_y(n);
    let n1 = if hit(n.open_btn, mx, my, wadd(n.win.x, 10), wadd(cy, 8)) { NoteView { picker: picker_opened(n.picker), ..n } } else { n };
    let (n2, w) = if hit(n.save_btn, mx, my, wadd(n.win.x, 100), wadd(cy, 8)) {
        match n.current_file {
            Some(p) => (NoteView { status: "Saved "@ + p, ..n1 }, Some(save_v(p, n.text))),
            None => (NoteView { status: "No file to save!"@, ..n1 }, None),
        }
    } else {
        (n1, None)
    };
    let n3 = if hit(n.save_as_btn, mx, my, wadd(n.win.x, 190), wadd(cy, 8)) {
        NoteView { saving_as: true, picker: picker_opened(n2.picker), save_name: Seq::empty(), save_pos: 0, ..n2 }
    } else {
        n2
    };
    (
        NoteView {
            open_btn: crate::ui::list::released(n.open_btn),
            save_btn: crate::ui::list::released(n.save_btn),
            save_as_btn: crate::ui::list::released(n.save_as_btn),
            ..n3
        },
        n.open_btn.pressed || n.save_btn.pressed || n.save_as_btn.pressed,
        w,
    )
}

/// What a release gives back.
pub struct UpResult {
    /// 1 when the notepad needs to be redrawn.
    pub redraw: i32,
    /// A file to write.
    pub write: Option<HostCall>,
}

impl Notepad {
    /// A release of the pointer.
    pub fn handle_mouse_up(&mut self, mx: i32, my: i32) -> (r: UpResult)
        requires
            old(self).wf(),
        ensures
            final(self).wf(),
            ({
                let n = old(self).view();
                if n.picker.is_open {
                    let (n1, redraw) = picker_release(n, mx, my);
                    final(self).view() == n1 && r.redraw == (if redraw { 1i32 } else { 0i32 }) && r.write is None
                } else {
                    let (n1, redraw, w) = buttons_release(n, mx, my);
                    &&& final(self).view() == n1
                    &&& r.redraw == (if redraw { 1i32 } else { 0i32 })
                    &&& match r.write {
                        Some(c) => w == Some(host_view(c)),
                        None => w is None,
                    }
                }
            }),
    {
        if self.picker.is_open() {
            let redraw = self.release_on_picker(mx, my);
            return UpResult { redraw: if redraw { 1 } else { 0 }, write: None };
        }
        self.release_on_buttons(mx, my)
    }

    fn release_on_picker(&mut self, mx: i32, my: i32) -> (redraw: bool)
        requires
            old(self).wf(),
            old(self).view().picker.is_open,
        ensures
            final(self).wf(),
            (final(self).view(), redraw) == picker_release(old(self).view(), mx, my),
    {
        let cy = add_w(self.win.y, 25);
        let mut redraw = self.picker.handle_mouse_up(mx, my, add_w(self.win.x, 70), add_w(cy, 50));
        if self.is_saving_as {
            if !self.picker.is_open() {
                match self.picker.take_selected() {
                    Some(path) => {
                        let parts = split_char_exec(chars_of(path.as_str()).as_slice(), '/');
                        let name = crate::text::clone_chars(&parts[parts.len() - 1]);
                        self.save_as_cursor_pos = name.len();
                        self.save_as_filename = name;
                    },
                    None => {},
                }
                self.picker.set_open(true);
                redraw = true;
            }
        } else if !self.picker.is_open() {
            match self.picker.take_selected() {
                Some(path) => {
                    self.current_file = Some(path.clone());
                    self.pending_open = Some(path);
                },
                None => {},
            }
        }
        redraw
    }

    #[verifier::rlimit(40)]
    fn release_on_buttons(&mut self, mx: i32, my: i32) -> (r: UpResult)
        requires
            old(self).wf(),
        ensures
            final(self).wf(),
            ({
                let (n1, redraw, w) = buttons_release(old(self).view(), mx, my);
                &&& final(self).view() == n1
                &&& r.redraw == (if redraw { 1i32 } else { 0i32 })
                &&& match r.write {
                    Some(c) => w == Some(host_view(c)),
                    None => w is None,
                }
            }),
    {
        let cy = add_w(self.win.y, 25);
        let r1 = self.btn_open.is_pressed;
        let r2 = self.btn_save.is_pressed;
        let r3 = self.btn_save_as.is_pressed;
        let x = self.win.x;
        if self.btn_open.is_pressed && inside_exec(mx, my, add_w(x, 10), add_w(cy, 8), self.btn_open.w, self.btn_open.h) {
            self.picker.open();
        }
        self.btn_open.is_pressed = false;
        let mut write: Option<HostCall> = None;
        if self.btn_save.is_pressed && inside_exec(mx, my, add_w(x, 100), add_w(cy, 8), self.btn_save.w, self.btn_save.h) {
            match &self.current_file {
                Some(path) => {
                    write = Some(write_call(path, &self.text));
                    let mut st = copy_str("Saved ");
                    st.append(path.as_str());
                    self.status = st;
                },
                None => {
                    self.status = copy_str("No file to save!");
                },
            }
        }
        self.btn_save.is_pressed = false;
        if self.btn_save_as.is_pressed && inside_exec(mx, my, add_w(x, 190), add_w(cy, 8), self.btn_save_as.w, self.btn_save_as.h) {
            self.is_saving_as = true;
            self.picker.open();
            self.save_as_filename = Vec::new();
            self.save_as_cursor_pos = 0;
            assert(self.save_as_filename@ =~= Seq::<char>::empty());
        }
        self.btn_save_as.is_pressed = false;
        UpResult { redraw: if r1 || r2 || r3 { 1 } else { 0 }, write }
    }

    /// The buttons, drawn at the top of the window.
    pub fn draw_buttons(&self) -> (cmds: Vec<DrawCmd>)
        ensures
            ({
                let n = self.view();
                let cy = content_y(n);
                draw_views(cmds@) == button_draw(n.open_btn, wadd(n.win.x, 10), wadd(cy, 8))
                    + button_draw(n.save_btn, wadd(n.win.x, 100), wadd(cy, 8))
                    + button_draw(n.save_as_btn, wadd(n.win.x, 190), wadd(cy, 8))
            }),
    {
        let cy = add_w(self.win.y, 25);
        let mut cmds = self.btn_open.draw(add_w(self.win.x, 10), add_w(cy, 8));
        let s = self.btn_save.draw(add_w(self.win.x, 100), add_w(cy, 8));
        append_cmds(&mut cmds, s);
        let a = self.btn_save_as.draw(add_w(self.win.x, 190), add_w(cy, 8));
        append_cmds(&mut cmds, a);
        cmds
    }

    /// The picker, drawn over the document when open.
    pub fn draw_picker(&self) -> (cmds: Vec<DrawCmd>)
        ensures
            draw_views(cmds@) == picker_draw(self.view().picker, wadd(self.view().win.x, 70), wadd(content_y(self.view()), 50)),
    {
        let cy = add_w(self.win.y, 25);
        self.picker.draw(add_w(self.win.x, 70), add_w(cy, 50))
    }

    /// The folder whose entries the picker waits for, if it waits.
    pub fn wanted_listing(&self) -> (r: Option<String>)
        ensures
            match r {
                Some(p) => self.view().picker.listing_wanted && p@ == self.view().picker.path,
                None => !self.view().picker.listing_wanted,
            },
    {
        self.picker.wanted_listing()
    }

    /// Whether `n` more entries still fit in the picker's list.
    pub fn listing_fits(&self, n: usize) -> (r: bool)
        ensures
            r == crate::ui::picker::list_fits(self.view().picker.list.items.len() + n as nat),
    {
        self.picker.listing_fits(n)
    }

    /// Passes a folder listing to the picker.
    pub fn set_entries(&mut self, entries: Vec<crate::ui::list::DirEntry>)
        requires
            crate::ui::picker::list_fits(old(self).view().picker.list.items.len() + entries@.len()),
        ensures
            final(self).view() == (NoteView {
                picker: PickerView {
                    list: crate::ui::list::ListView {
                        items: crate::ui::list::with_entries(
                            old(self).view().picker.list.items,
                            crate::ui::list::entry_views(entries@),
                            250,
                            25,
                            20,
                            70,
                            30,
                        ),
                        ..old(self).view().picker.list
                    },
                    listing_wanted: false,
                    ..old(self).view().picker
                },
                ..old(self).view()
            }),
            final(self).wf() == old(self).wf(),
    {
        self.picker.set_entries(entries);
    }

    /// Where the window is: its position and size.
    pub fn window(&self) -> (r: (i32, i32, i32, i32))
        ensures
            r == (self.view().win.x, self.view().win.y, self.view().win.w, self.view().win.h),
    {
        (self.win.x, self.win.y, self.win.w, self.win.h)
    }

    /// The number of lines.
    pub fn line_count(&self) -> (r: usize)
        ensures
            r == self.view().text.len(),
    {
        self.text.len()
    }

    /// Line `i` of the document.
    pub fn line(&self, i: usize) -> (r: String)
        requires
            i < self.view().text.len(),
        ensures
            r@ == self.view().text[i as int],
    {
        string_of(self.text[i].as_slice())
    }

    /// The cursor's line and column.
    pub fn cursor(&self) -> (r: (usize, usize))
        ensures
            r.0 == self.view().row && r.1 == self.view().col,
    {
        (self.cursor_row, self.cursor_col)
    }

    /// The status line.
    pub fn status(&self) -> (r: String)
        ensures
            r@ == self.view().status,
    {
        self.status.clone()
    }

    /// During Save As, the name typed so far and the position in it.
    pub fn save_as_state(&self) -> (r: Option<(String, usize)>)
        ensures
            match r {
                Some((name, pos)) => self.view().saving_as && name@ == self.view().save_name && pos == self.view().save_pos,
                None => !self.view().saving_as,
            },
    {
        if self.is_saving_as {
            Some((string_of(self.save_as_filename.as_slice()), self.save_as_cursor_pos))
        } else {
            None
        }
    }

    /// Whether the picker is open.
    pub fn picker_open(&self) -> (r: bool)
        ensures
            r == self.view().picker.is_open,
    {
        self.picker.is_open()
    }

    /// Whether the host should scroll to the cursor.
    pub fn needs_autoscroll(&self) -> (r: bool)
        ensures
            r == self.view().needs_autoscroll,
    {
        self.needs_autoscroll
    }
}


/// Typing a character and then Backspace gives back the document and the
/// cursor as they were.
pub proof fn law_type_then_backspace(n: NoteView, key: u32)
    requires
        !n.picker.is_open,
        !n.saving_as,
        is_typed(key),
        !key_panics(n, key),
    ensures
        ({
            let n2 = key_spec(key_spec(n, key).0, 8).0;
            n2.text == n.text && n2.row == n.row && n2.col == n.col
        }),
{
    let line = n.text[n.row as int];
    let l1 = insert_at(line, n.col, key as char);
    assert(remove_at(l1, n.col) =~= line);
    assert(n.text.update(n.row as int, l1).update(n.row as int, line) =~= n.text);
}

/// Enter and then Backspace join the split line again and put the cursor
/// back.
pub proof fn law_enter_then_backspace(n: NoteView)
    requires
        !n.picker.is_open,
        !n.saving_as,
        !key_panics(n, 13),
    ensures
        ({
            let n2 = key_spec(key_spec(n, 13).0, 8).0;
            n2.text == n.text && n2.row == n.row && n2.col == n.col
        }),
{
    let row = n.row as int;
    let line = n.text[row];
    let t1 = n.text.update(row, line.take(n.col as int)).insert(row + 1, line.skip(n.col as int));
    assert(t1[row] == line.take(n.col as int));
    assert(t1[row + 1] == line.skip(n.col as int));
    assert(line.take(n.col as int) + line.skip(n.col as int) =~= line);
    assert(t1.remove(row + 1).update(row, line) =~= n.text);
}


/// What Save writes, Open reads back as the same document: for a document
/// whose lines hold no line break, whose lines before the last do not end
/// in a carriage return, and whose last line is not empty unless it is the
/// only one.
pub proof fn law_save_then_open(n: NoteView, path: Seq<char>, other: NoteView)
    requires
        n.text.len() >= 1,
        forall|i: int| 0 <= i < n.text.len() ==> !(#[trigger] n.text[i]).contains('\n'),
        forall|i: int| 0 <= i < n.text.len() - 1 ==> strip_cr(#[trigger] n.text[i]) == n.text[i],
        n.text.last().len() > 0 || n.text.len() == 1,
    ensures
        save_v(path, n.text) matches HostView::WriteFile { content, .. } && opened(other, path, Some(content)).text == n.text,
{
    let t = n.text;
    let content = join_char(t, '\n');
    crate::text::lemma_split_join(t, '\n');
    let p = split_char(content, '\n');
    assert(p == t);
    let init = p.take(p.len() - 1).map_values(|l: Seq<char>| strip_cr(l));
    assert(init =~= t.take(t.len() - 1)) by {
        assert forall|i: int| 0 <= i < init.len() implies init[i] == t.take(t.len() - 1)[i] by {
            assert(strip_cr(t[i]) == t[i]);
        }
    }
    if t.last().len() > 0 {
        assert(text_lines(content) =~= t);
    } else {
        assert(text_lines(content) =~= Seq::<Seq<char>>::empty());
        assert(t =~= seq![Seq::<char>::empty()]);
    }
}


/// The cursor stands inside the document: on one of its lines, at most at
/// that line's end.
pub open spec fn cursor_in_text(n: NoteView) -> bool {
    &&& n.text.len() >= 1
    &&& n.row < n.text.len()
    &&& n.col <= n.text[n.row as int].len()
}

/// Whatever key is pressed, a cursor inside the document stays inside it,
/// and no key there stops the notepad.
pub proof fn law_cursor_stays_in_text(n: NoteView, key: u32)
    requires
        cursor_in_text(n),
    ensures
        !key_panics(n, key),
        cursor_in_text(key_spec(n, key).0),
{
    let row = n.row as int;
    let col = n.col as int;
    let line = n.text[row];
    let r = key_spec(n, key).0;
    if !(n.picker.is_open && !n.saving_as) && !n.saving_as {
        if key == 8 && col == 0 && row > 0 {
            let prev = n.text[row - 1];
            let t1 = n.text.remove(row);
            assert(t1[row - 1] == prev);
            assert(r.text == t1.update(row - 1, prev + line));
            assert(r.text[row - 1] == prev + line);
        } else if key == 8 && col > 0 {
            assert(remove_at(line, (col - 1) as nat).len() == line.len() - 1);
        } else if key == 13 {
            let t1 = n.text.update(row, line.take(col)).insert(row + 1, line.skip(col));
            assert(t1[row + 1] == line.skip(col));
        } else if is_typed(key) {
            assert(insert_at(line, n.col, key as char).len() == line.len() + 1);
        }
    }
}

/// The arrow keys move the cursor and leave the document alone. Up and
/// Down go to the line above or below, keeping the column where that line
/// is long enough and going to its end where it is shorter; on the first
/// (last) line they do nothing. Left and Right step one character, across
/// line ends.
pub proof fn law_arrow_keys(n: NoteView, key: u32)
    requires
        !n.picker.is_open,
        !n.saving_as,
        cursor_in_text(n),
        key == 1037 || key == 1038 || key == 1039 || key == 1040,
    ensures
        ({
            let r = key_spec(n, key).0;
            let row = n.row as int;
            let col = n.col as int;
            &&& r.text == n.text
            &&& key == 1038 && row > 0 ==> r.row == row - 1
                && r.col == (if col <= n.text[row - 1].len() { col } else { n.text[row - 1].len() as int })
            &&& key == 1038 && row == 0 ==> r.row == row && r.col == col
            &&& key == 1040 && row + 1 < n.text.len() ==> r.row == row + 1
                && r.col == (if col <= n.text[row + 1].len() { col } else { n.text[row + 1].len() as int })
            &&& key == 1040 && row + 1 == n.text.len() ==> r.row == row && r.col == col
            &&& key == 1037 && col > 0 ==> r.row == row && r.col == col - 1
            &&& key == 1037 && col == 0 && row > 0 ==> r.row == row - 1 && r.col == n.text[row - 1].len()
            &&& key == 1039 && col < n.text[row].len() ==> r.row == row && r.col == col + 1
            &&& key == 1039 && col == n.text[row].len() && row + 1 < n.text.len() ==> r.row == row + 1 && r.col == 0
        }),
{
}

} // verus!
