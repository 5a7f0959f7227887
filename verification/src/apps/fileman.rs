//! The file manager: a scrolling list of the entries of one folder; a
//! folder opens in place, a file opens in the notepad.

use crate::host::{host_view, HostCall, HostView};
use crate::ipc::Rgba;
use crate::paths::{child_path, child_path_exec, parent_path, parent_path_exec};
use crate::services::wm::arith::{add_w, sub_w, wadd, wsub};
use crate::text::{chars_of, copy_str, push_bytes, string_of};
use crate::ui::list::{
    after_icon, after_icon_exec, append_cmds, entry_views, file_icon, folder_icon, is_up_text, is_up_text_exec,
    items_draw, list_mouse_down, list_mouse_move, list_mouse_up, list_views, new_button, up_text, with_entries,
    DirEntry, ListButton, ListGeom, ListView, ScrollList,
};
use crate::ui::{button_draw, draw_views, push_rect, push_text, rect_v, text_v, Button, ButtonView, DrawCmd, DrawView, Widget, Window};
use vstd::prelude::*;

verus! {

/// The file manager as a mathematical value.
pub struct FileManView {
    pub win: Window,
    pub path: Seq<char>,
    pub label: Seq<char>,
    pub list: ListView,
    pub listing_wanted: bool,
}

/// A fresh listing of the current folder: the label, the top of the list
/// and, below the root, the way up.
pub open spec fn fm_refreshed(f: FileManView) -> FileManView {
    FileManView {
        label: "Path: "@ + f.path,
        list: ListView {
            items: if f.path == seq!['/'] { Seq::empty() } else { seq![(new_button(up_text(), 380, 35), 10i32, 60i32)] },
            scroll: 0,
            ..f.list
        },
        listing_wanted: true,
        ..f
    }
}

/// Opening a file in the notepad from the folder `cwd`.
pub open spec fn notepad_exec_v(cwd: Seq<char>, file: Seq<char>) -> HostView {
    HostView::Execve {
        args: vstd::utf8::encode_utf8("/bin/notepad"@).push(0u8) + vstd::utf8::encode_utf8(file).push(0u8),
        cwd,
        stdin: None,
        stdout: None,
        terminal_id: 0,
        route_output_to: None,
    }
}

/// What a click on the list button labelled `text` does: the new state and
/// the program to start, if any.
pub open spec fn fm_click(f: FileManView, text: Seq<char>) -> (FileManView, Option<HostView>) {
    if is_up_text(text) {
        (fm_refreshed(FileManView { path: parent_path(f.path), ..f }), None)
    } else if text.len() >= 1 && text[0] == folder_icon() {
        (fm_refreshed(FileManView { path: child_path(f.path, after_icon(text)), ..f }), None)
    } else if text.len() >= 1 && text[0] == file_icon() {
        (f, Some(notepad_exec_v(f.path, child_path(f.path, after_icon(text)))))
    } else {
        (f, None)
    }
}

/// Where the list lies in the window.
pub open spec fn fm_geom(w: Window) -> ListGeom {
    ListGeom {
        ox: w.x,
        oy: w.y,
        top: wadd(w.y, 30),
        bottom: wsub(wadd(w.y, w.h), 60),
        up_x: wsub(wadd(w.x, w.w), 40),
        up_y: wadd(w.y, 35),
        down_x: wsub(wadd(w.x, w.w), 40),
        down_y: wsub(wadd(w.y, w.h), 50),
        step: 80,
    }
}

/// How far a list of `n` buttons can scroll in a window `h` high.
pub open spec fn fm_max_scroll(n: nat, h: i32) -> int {
    if 60 + 40 * n - (h - 60) > 0 { 60 + 40 * n - (h - 60) } else { 0 }
}

/// One frame of the window at `(x, y)`, `w` by `h`.
pub open spec fn fm_frame(f: FileManView) -> Seq<DrawView> {
    let win = f.win;
    let g = fm_geom(win);
    seq![
        rect_v(win.x, win.y, win.w, win.h, Rgba { r: 15, g: 15, b: 20, a: 100 }),
        text_v(wadd(win.x, 10), wadd(win.y, 30), f.label, 16, Rgba { r: 100, g: 100, b: 100, a: 100 }),
    ] + items_draw(f.list.items, f.list.items.len() as int, g, f.list.scroll) + button_draw(f.list.up, g.up_x, g.up_y)
        + button_draw(f.list.down, g.down_x, g.down_y)
}

/// A release of the pointer: the new state, whether to redraw, and the
/// program to start.
pub open spec fn fm_mouse_up(f: FileManView, mx: i32, my: i32) -> (FileManView, bool, Option<HostView>) {
    let (l, redraw, hit) = list_mouse_up(f.list, mx, my, fm_geom(f.win), fm_max_scroll(f.list.items.len(), f.win.h));
    let f1 = FileManView { list: l, ..f };
    match hit {
        Some(k) => {
            let (f2, exec) = fm_click(f1, f.list.items[k].0.text);
            (f2, true, exec)
        },
        None => (f1, redraw, None),
    }
}

/// The list is short enough for its positions to fit in an `i32`.
pub open spec fn fm_list_fits(n: nat) -> bool {
    60 + 40 * n <= i32::MAX
}

/// The file manager.
pub struct FileManager {
    win: Window,
    path: String,
    lbl_path: String,
    list: ScrollList,
    listing_wanted: bool,
}

impl FileManager {
    pub closed spec fn view(&self) -> FileManView {
        FileManView {
            win: self.win,
            path: self.path@,
            label: self.lbl_path@,
            list: self.list.view(),
            listing_wanted: self.listing_wanted,
        }
    }

    /// The file manager in window `win`, showing the root folder once its
    /// listing arrives.
    pub fn new(win: Window) -> (f: Self)
        ensures
            f.view() == fm_refreshed(FileManView {
                win,
                path: seq!['/'],
                label: Seq::empty(),
                list: ListView {
                    items: Seq::empty(),
                    scroll: 0,
                    up: new_button("⬆"@, 30, 30),
                    down: new_button("⬇"@, 30, 30),
                },
                listing_wanted: false,
            }),
    {
        let mut f = Self {
            win,
            path: copy_str("/"),
            lbl_path: String::new(),
            list: ScrollList { items: Vec::new(), scroll: 0, up: Button::new("⬆", 30, 30), down: Button::new("⬇", 30, 30) },
            listing_wanted: false,
        };
        proof {
            reveal_strlit("/");
            assert("/"@ =~= seq!['/']);
            assert(f.list.view().items =~= Seq::<(ButtonView, i32, i32)>::empty());
        }
        f.refresh_dir();
        f
    }

    /// The window's id.
    pub fn window_id(&self) -> (id: u32)
        ensures
            id == self.view().win.id,
    {
        self.win.id
    }

    /// The folder whose entries the list waits for, if it waits.
    pub fn wanted_listing(&self) -> (r: Option<String>)
        ensures
            match r {
                Some(p) => self.view().listing_wanted && p@ == self.view().path,
                None => !self.view().listing_wanted,
            },
    {
        if self.listing_wanted {
            Some(self.path.clone())
        } else {
            None
        }
    }

    /// Fills the list with the entries of the folder (nothing for a folder
    /// Whether `n` more entries still fit in the list.
    pub fn listing_fits(&self, n: usize) -> (r: bool)
        ensures
            r == fm_list_fits(self.view().list.items.len() + n as nat),
    {
        let k = self.list.items.len() as u128 + n as u128;
        60 + 40 * k <= 0x7fff_ffff
    }

    /// that cannot be read), one button per entry, 40 pixels apart.
    pub fn set_entries(&mut self, entries: Vec<DirEntry>)
        requires
            fm_list_fits(old(self).view().list.items.len() + entries@.len()),
        ensures
            final(self).view() == (FileManView {
                list: ListView {
                    items: with_entries(old(self).view().list.items, entry_views(entries@), 380, 35, 10, 60, 40),
                    ..old(self).view().list
                },
                listing_wanted: false,
                ..old(self).view()
            }),
    {
        self.list.append_entries(&entries, 380, 35, 10, 60, 40);
        self.listing_wanted = false;
    }

    /// Starts a fresh listing of the current folder, scrolled to the top.
    fn refresh_dir(&mut self)
        ensures
            final(self).view() == fm_refreshed(old(self).view()),
    {
        let mut label = copy_str("Path: ");
        label.append(self.path.as_str());
        self.lbl_path = label;
        self.list.scroll = 0;
        let mut bs: Vec<ListButton> = Vec::new();
        let at_root = crate::text::str_eq(self.path.as_str(), "/");
        proof {
            reveal_strlit("/");
            assert("/"@ =~= seq!['/']);
        }
        if !at_root {
            let btn = Button::new("⬆️ ..", 380, 35);
            bs.push(ListButton { button: btn, rel_x: 10, rel_y: 60 });
            assert(list_views(bs@) =~= seq![(new_button(up_text(), 380, 35), 10i32, 60i32)]);
        } else {
            assert(list_views(bs@) =~= Seq::<(ButtonView, i32, i32)>::empty());
        }
        self.list.items = bs;
        self.listing_wanted = true;
    }

    /// Carries out a click on the list button labelled `text`.
    fn handle_btn_click(&mut self, text: &Vec<char>) -> (exec: Option<HostCall>)
        ensures
            ({
                let (f, e) = fm_click(old(self).view(), text@);
                &&& final(self).view() == f
                &&& match exec {
                    Some(c) => e == Some(host_view(c)),
                    None => e is None,
                }
            }),
    {
        if is_up_text_exec(text) {
            let parent = parent_path_exec(chars_of(self.path.as_str()).as_slice());
            self.path = string_of(parent.as_slice());
            self.refresh_dir();
            None
        } else if text.len() >= 1 && text[0] == '📁' {
            let name = after_icon_exec(text);
            let p = child_path_exec(chars_of(self.path.as_str()).as_slice(), name.as_slice());
            self.path = string_of(p.as_slice());
            self.refresh_dir();
            None
        } else if text.len() >= 1 && text[0] == '📄' {
            let name = after_icon_exec(text);
            let p = child_path_exec(chars_of(self.path.as_str()).as_slice(), name.as_slice());
            let full = string_of(p.as_slice());
            let mut args: Vec<u8> = Vec::new();
            push_bytes(&mut args, "/bin/notepad");
            args.push(0);
            let ghost a1 = args@;
            push_bytes(&mut args, full.as_str());
            args.push(0);
            assert(args@ =~= vstd::utf8::encode_utf8("/bin/notepad"@).push(0u8) + vstd::utf8::encode_utf8(full@).push(0u8));
            Some(HostCall::Execve { args, cwd: self.path.clone(), stdin: None, stdout: None, terminal_id: 0, route_output_to: None })
        } else {
            None
        }
    }

    fn geom(&self) -> (g: ListGeom)
        ensures
            g == fm_geom(self.win),
    {
        let w = &self.win;
        ListGeom {
            ox: w.x,
            oy: w.y,
            top: add_w(w.y, 30),
            bottom: sub_w(add_w(w.y, w.h), 60),
            up_x: sub_w(add_w(w.x, w.w), 40),
            up_y: add_w(w.y, 35),
            down_x: sub_w(add_w(w.x, w.w), 40),
            down_y: sub_w(add_w(w.y, w.h), 50),
            step: 80,
        }
    }

    /// Moves the window to `(x, y)`, `w` by `h`, and draws a frame.
    pub fn tick(&mut self, x: i32, y: i32, w: i32, h: i32) -> (cmds: Vec<DrawCmd>)
        ensures
            final(self).view() == (FileManView {
                win: Window { x, y, w, h, ..old(self).view().win },
                ..old(self).view()
            }),
            draw_views(cmds@) == fm_frame(final(self).view()),
    {
        self.win.x = x;
        self.win.y = y;
        self.win.w = w;
        self.win.h = h;
        let mut cmds = self.win.draw_background(Rgba { r: 15, g: 15, b: 20, a: 100 });
        push_text(&mut cmds, add_w(x, 10), add_w(y, 30), self.lbl_path.clone(), 16, Rgba { r: 100, g: 100, b: 100, a: 100 });
        let g = self.geom();
        let items = self.list.draw_items(g);
        append_cmds(&mut cmds, items);
        let u = self.list.up.draw(g.up_x, g.up_y);
        append_cmds(&mut cmds, u);
        let d = self.list.down.draw(g.down_x, g.down_y);
        append_cmds(&mut cmds, d);
        proof {
            assert(Rgba { a: 100, ..Rgba { r: 15, g: 15, b: 20, a: 100 } } == Rgba { r: 15, g: 15, b: 20, a: 100 });
        }
        cmds
    }

    /// The buttons track the pointer; 1 when a hover changed.
    pub fn handle_mouse_move(&mut self, mx: i32, my: i32) -> (redraw: i32)
        ensures
            ({
                let (l, r) = list_mouse_move(old(self).view().list, mx, my, fm_geom(old(self).view().win));
                &&& final(self).view() == (FileManView { list: l, ..old(self).view() })
                &&& redraw == (if r { 1i32 } else { 0i32 })
            }),
    {
        let g = self.geom();
        if self.list.mouse_move(mx, my, g) { 1 } else { 0 }
    }

    /// A press presses the buttons under the pointer; 1 when one was hit.
    pub fn handle_mouse_down(&mut self, mx: i32, my: i32) -> (redraw: i32)
        ensures
            ({
                let (l, r) = list_mouse_down(old(self).view().list, mx, my, fm_geom(old(self).view().win));
                &&& final(self).view() == (FileManView { list: l, ..old(self).view() })
                &&& redraw == (if r { 1i32 } else { 0i32 })
            }),
    {
        let g = self.geom();
        if self.list.mouse_down(mx, my, g) { 1 } else { 0 }
    }

    /// A release: scrolling, or a click on an entry; a click on a file
    /// gives the program to start.
    pub fn handle_mouse_up(&mut self, mx: i32, my: i32) -> (r: (i32, Option<HostCall>))
        ensures
            ({
                let (f, redraw, e) = fm_mouse_up(old(self).view(), mx, my);
                &&& final(self).view() == f
                &&& r.0 == (if redraw { 1i32 } else { 0i32 })
                &&& match r.1 {
                    Some(c) => e == Some(host_view(c)),
                    None => e is None,
                }
            }),
    {
        let g = self.geom();
        let n = self.list.items.len();
        let m: i128 = 60 + (n as i128) * 40 - (self.win.h as i128 - 60);
        let max_scroll: i128 = if m > 0 { m } else { 0 };
        let (redraw, clicked) = self.list.mouse_up(mx, my, g, max_scroll);
        match clicked {
            Some(text) => {
                let exec = self.handle_btn_click(&text);
                (1, exec)
            },
            None => (if redraw { 1 } else { 0 }, None),
        }
    }
}

} // verus!
