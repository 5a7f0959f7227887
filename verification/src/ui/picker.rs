//! A modal dialog for choosing a file: it lists one folder at a time, with
//! a button per entry and scroll buttons.

use super::list::{
    after_icon, after_icon_exec, append_cmds, entry_text, entry_views, file_icon, folder_icon, is_up_text, is_up_text_exec,
    items_draw, list_mouse_down, list_mouse_move, list_mouse_up, list_views, new_button, up_text, with_entries, DirEntry, ListButton, ListGeom, ListView,
    ScrollList,
};
use super::{button_draw, button_view, draw_view, draw_views, push_text, text_v, Button, ButtonView, DrawCmd, DrawView, Widget};
use crate::ipc::Rgba;
use crate::paths::{child_path, child_path_exec, parent_path, parent_path_exec};
use crate::services::wm::arith::{add_w, wadd};
use crate::text::{chars_of, copy_str, string_of};
use vstd::prelude::*;

verus! {

/// The dialog as a mathematical value. `listing_wanted` says that the list
/// shows only the way up until the host supplies the entries of `path`.
pub struct PickerView {
    pub path: Seq<char>,
    pub is_open: bool,
    pub selected: Option<Seq<char>>,
    pub list: ListView,
    pub label: Seq<char>,
    pub listing_wanted: bool,
}

/// What a fresh listing of `path` shows before its entries arrive: the
/// label and, below the root, the way up.
pub open spec fn refreshed(p: PickerView) -> PickerView {
    PickerView {
        label: "Path: "@ + p.path,
        list: ListView {
            items: if p.path == seq!['/'] { Seq::empty() } else { seq![(new_button(up_text(), 150, 25), 20i32, 70i32)] },
            ..p.list
        },
        listing_wanted: true,
        ..p
    }
}

/// What choosing the list button labelled `text` does.
pub open spec fn click(p: PickerView, text: Seq<char>) -> (PickerView, bool) {
    if is_up_text(text) {
        (refreshed(PickerView { path: parent_path(p.path), ..p }), true)
    } else if text.len() >= 1 && text[0] == folder_icon() {
        (refreshed(PickerView { path: child_path(p.path, after_icon(text)), list: ListView { scroll: 0, ..p.list }, ..p }), true)
    } else if text.len() >= 1 && text[0] == file_icon() {
        (PickerView { selected: Some(child_path(p.path, after_icon(text))), is_open: false, ..p }, true)
    } else {
        (p, false)
    }
}

/// Where the list of the dialog at `(x, y)` lies.
pub open spec fn picker_geom(x: i32, y: i32) -> ListGeom {
    ListGeom {
        ox: x,
        oy: y,
        top: wadd(y, 70),
        bottom: wadd(y, 230),
        up_x: wadd(x, 320),
        up_y: wadd(y, 50),
        down_x: wadd(x, 320),
        down_y: wadd(y, 220),
        step: 60,
    }
}

/// How far a list of `n` buttons can scroll.
pub open spec fn picker_max_scroll(n: nat) -> int {
    if 30 * n - 150 > 0 { 30 * n - 150 } else { 0 }
}

/// What the open dialog draws at `(x, y)`.
pub open spec fn picker_draw(p: PickerView, x: i32, y: i32) -> Seq<DrawView> {
    if !p.is_open {
        Seq::empty()
    } else {
        let white = Rgba { r: 100, g: 100, b: 100, a: 100 };
        seq![
            DrawView::Rect { x, y, w: 360, h: 260, color: Rgba { r: 10, g: 10, b: 15, a: 95 }, radius: 8, shadow_blur: 10 },
            DrawView::Rect { x, y, w: 360, h: 40, color: Rgba { r: 20, g: 20, b: 25, a: 100 }, radius: 8, shadow_blur: 0 },
            text_v(wadd(x, 10), wadd(y, 12), "Open File"@, 16, white),
            text_v(wadd(x, 10), wadd(y, 45), p.label, 16, white),
        ] + button_draw(p.list.up, wadd(x, 320), wadd(y, 50)) + button_draw(p.list.down, wadd(x, 320), wadd(y, 220))
            + items_draw(p.list.items, p.list.items.len() as int, picker_geom(x, y), p.list.scroll)
    }
}

/// A release of the pointer over the open dialog at `(x, y)`.
pub open spec fn picker_mouse_up(p: PickerView, mx: i32, my: i32, x: i32, y: i32) -> (PickerView, bool) {
    let (l, redraw, hit) = list_mouse_up(p.list, mx, my, picker_geom(x, y), picker_max_scroll(p.list.items.len()));
    let p1 = PickerView { list: l, ..p };
    match hit {
        Some(k) => (click(p1, p.list.items[k].0.text).0, true),
        None => (p1, redraw),
    }
}

/// A new picker.
pub closed spec fn picker_initial() -> PickerView {
    refreshed(PickerView {
        path: seq!['/'],
        is_open: false,
        selected: None,
        list: ListView {
            items: Seq::empty(),
            scroll: 0,
            up: new_button("⬆"@, 30, 30),
            down: new_button("⬇"@, 30, 30),
        },
        label: Seq::empty(),
        listing_wanted: false,
    })
}

/// The list is short enough for its positions to fit in an `i32`.
pub open spec fn list_fits(n: nat) -> bool {
    70 + 30 * n <= i32::MAX
}

/// The picker with its folder listing.
pub struct FilePicker {
    path: String,
    is_open: bool,
    selected_path: Option<String>,
    list: ScrollList,
    lbl_path: String,
    listing_wanted: bool,
}

impl FilePicker {
    pub closed spec fn view(&self) -> PickerView {
        PickerView {
            path: self.path@,
            is_open: self.is_open,
            selected: match self.selected_path {
                Some(s) => Some(s@),
                None => None,
            },
            list: self.list.view(),
            label: self.lbl_path@,
            listing_wanted: self.listing_wanted,
        }
    }

    /// A closed picker in the root folder, waiting for its listing.
    pub fn new() -> (fp: Self)
        ensures
            fp.view() == picker_initial(),
            picker_initial() == refreshed(PickerView {
                path: seq!['/'],
                is_open: false,
                selected: None,
                list: ListView {
                    items: Seq::empty(),
                    scroll: 0,
                    up: new_button("⬆"@, 30, 30),
                    down: new_button("⬇"@, 30, 30),
                },
                label: Seq::empty(),
                listing_wanted: false,
            }),
    {
        let mut fp = Self {
            path: copy_str("/"),
            is_open: false,
            selected_path: None,
            list: ScrollList { items: Vec::new(), scroll: 0, up: Button::new("⬆", 30, 30), down: Button::new("⬇", 30, 30) },
            lbl_path: String::new(),
            listing_wanted: false,
        };
        proof {
            reveal_strlit("/");
            assert("/"@ =~= seq!['/']);
            assert(fp.list.view().items =~= Seq::<(ButtonView, i32, i32)>::empty());
        }
        fp.refresh_dir();
        fp
    }

    /// Opens the dialog at the top of a fresh listing, with no choice made.
    pub fn open(&mut self)
        ensures
            final(self).view() == refreshed(
                PickerView { is_open: true, selected: None, list: ListView { scroll: 0, ..old(self).view().list }, ..old(self).view() },
            ),
    {
        self.is_open = true;
        self.selected_path = None;
        self.list.scroll = 0;
        self.refresh_dir();
    }

    /// The folder shown.
    pub fn path(&self) -> (r: &String)
        ensures
            r@ == self.view().path,
    {
        &self.path
    }

    /// Whether the dialog is open.
    pub fn is_open(&self) -> (r: bool)
        ensures
            r == self.view().is_open,
    {
        self.is_open
    }

    /// Shows or hides the dialog without touching its listing.
    pub fn set_open(&mut self, open: bool)
        ensures
            final(self).view() == (PickerView { is_open: open, ..old(self).view() }),
    {
        self.is_open = open;
    }

    /// Takes the file chosen, if any.
    pub fn take_selected(&mut self) -> (r: Option<String>)
        ensures
            match r {
                Some(p) => old(self).view().selected == Some(p@),
                None => old(self).view().selected is None,
            },
            final(self).view() == (PickerView { selected: None, ..old(self).view() }),
    {
        let r = self.selected_path.take();
        r
    }

    /// Closes the dialog.
    pub fn close(&mut self)
        ensures
            final(self).view() == (PickerView { is_open: false, ..old(self).view() }),
    {
        self.is_open = false;
    }

    /// The folder whose entries the list waits for, if it waits.
    pub fn wanted_listing(&self) -> (r: Option<String>)
        ensures
            match r {
                Some(p) => self.view().listing_wanted && p@ == self.view().path,
                None => !self.view().listing_wanted,
            },
    {
        if self.listing_wanted {
            Some(self.path.clone())
        } else {
            None
        }
    }

    /// Whether `n` more entries still fit in the list.
    pub fn listing_fits(&self, n: usize) -> (r: bool)
        ensures
            r == list_fits(self.view().list.items.len() + n as nat),
    {
        let k = self.list.items.len() as u128 + n as u128;
        70 + 30 * k <= 0x7fff_ffff
    }

    /// Fills the list with the entries of the folder (nothing for a folder
    /// that cannot be read), one button per entry, 30 pixels apart.
    pub fn set_entries(&mut self, entries: Vec<DirEntry>)
        requires
            list_fits(old(self).view().list.items.len() + entries@.len()),
        ensures
            final(self).view() == (PickerView {
                list: ListView {
                    items: with_entries(old(self).view().list.items, entry_views(entries@), 250, 25, 20, 70, 30),
                    ..old(self).view().list
                },
                listing_wanted: false,
                ..old(self).view()
            }),
    {
        self.list.append_entries(&entries, 250, 25, 20, 70, 30);
        self.listing_wanted = false;
    }

    /// Starts a fresh listing of the current folder.
    fn refresh_dir(&mut self)
        ensures
            final(self).view() == refreshed(old(self).view()),
    {
        let mut label = copy_str("Path: ");
        label.append(self.path.as_str());
        self.lbl_path = label;
        let mut bs: Vec<ListButton> = Vec::new();
        let at_root = crate::text::str_eq(self.path.as_str(), "/");
        proof {
            reveal_strlit("/");
            assert("/"@ =~= seq!['/']);
        }
        if !at_root {
            let btn = Button::new("⬆️ ..", 150, 25);
            bs.push(ListButton { button: btn, rel_x: 20, rel_y: 70 });
            assert(list_views(bs@) =~= seq![(new_button(up_text(), 150, 25), 20i32, 70i32)]);
        } else {
            assert(list_views(bs@) =~= Seq::<(ButtonView, i32, i32)>::empty());
        }
        self.list.items = bs;
        self.listing_wanted = true;
    }

    /// Carries out a click on the list button labelled `text`: up one
    /// folder, into a folder, or choosing a file (which closes the picker).
    pub fn handle_click(&mut self, text: &Vec<char>) -> (handled: bool)
        ensures
            (final(self).view(), handled) == click(old(self).view(), text@),
    {
        if is_up_text_exec(text) {
            let parent = parent_path_exec(chars_of(self.path.as_str()).as_slice());
            self.path = string_of(parent.as_slice());
            self.refresh_dir();
            true
        } else if text.len() >= 1 && text[0] == '📁' {
            let name = after_icon_exec(text);
            let p = child_path_exec(chars_of(self.path.as_str()).as_slice(), name.as_slice());
            self.path = string_of(p.as_slice());
            self.list.scroll = 0;
            self.refresh_dir();
            true
        } else if text.len() >= 1 && text[0] == '📄' {
            let name = after_icon_exec(text);
            let p = child_path_exec(chars_of(self.path.as_str()).as_slice(), name.as_slice());
            self.selected_path = Some(string_of(p.as_slice()));
            self.close();
            true
        } else {
            false
        }
    }

    fn geom(x: i32, y: i32) -> (g: ListGeom)
        ensures
            g == picker_geom(x, y),
    {
        ListGeom {
            ox: x,
            oy: y,
            top: add_w(y, 70),
            bottom: add_w(y, 230),
            up_x: add_w(x, 320),
            up_y: add_w(y, 50),
            down_x: add_w(x, 320),
            down_y: add_w(y, 220),
            step: 60,
        }
    }
}

impl Widget for FilePicker {
    fn draw(&self, x: i32, y: i32) -> (cmds: Vec<DrawCmd>)
        ensures
            draw_views(cmds@) == picker_draw(self.view(), x, y),
    {
        let mut cmds: Vec<DrawCmd> = Vec::new();
        if !self.is_open {
            assert(draw_views(cmds@) =~= Seq::<DrawView>::empty());
            return cmds;
        }
        let white = Rgba { r: 100, g: 100, b: 100, a: 100 };
        let ghost c0 = cmds@;
        let r1 = DrawCmd::Rect { x, y, w: 360, h: 260, color: Rgba { r: 10, g: 10, b: 15, a: 95 }, radius: 8, shadow_blur: 10 };
        cmds.push(r1);
        let r2 = DrawCmd::Rect { x, y, w: 360, h: 40, color: Rgba { r: 20, g: 20, b: 25, a: 100 }, radius: 8, shadow_blur: 0 };
        cmds.push(r2);
        assert(draw_views(cmds@) =~= seq![draw_view(r1), draw_view(r2)]);
        push_text(&mut cmds, add_w(x, 10), add_w(y, 12), copy_str("Open File"), 16, white);
        push_text(&mut cmds, add_w(x, 10), add_w(y, 45), self.lbl_path.clone(), 16, white);
        let u = self.list.up.draw(add_w(x, 320), add_w(y, 50));
        append_cmds(&mut cmds, u);
        let d = self.list.down.draw(add_w(x, 320), add_w(y, 220));
        append_cmds(&mut cmds, d);
        let items = self.list.draw_items(Self::geom(x, y));
        append_cmds(&mut cmds, items);
        cmds
    }

    /// The buttons of the open dialog track the pointer; redraw when a
    /// hover changed.
    fn handle_mouse_move(&mut self, mx: i32, my: i32, x: i32, y: i32) -> (redraw: bool)
        ensures
            old(self).view().is_open ==> ({
                let (l, r) = list_mouse_move(old(self).view().list, mx, my, picker_geom(x, y));
                final(self).view() == (PickerView { list: l, ..old(self).view() }) && redraw == r
            }),
            !old(self).view().is_open ==> !redraw && final(self).view() == old(self).view(),
    {
        if !self.is_open {
            return false;
        }
        self.list.mouse_move(mx, my, Self::geom(x, y))
    }

    /// A press on the open dialog presses the buttons under the pointer.
    fn handle_mouse_down(&mut self, mx: i32, my: i32, x: i32, y: i32) -> (redraw: bool)
        ensures
            old(self).view().is_open ==> ({
                let (l, r) = list_mouse_down(old(self).view().list, mx, my, picker_geom(x, y));
                final(self).view() == (PickerView { list: l, ..old(self).view() }) && redraw == r
            }),
            !old(self).view().is_open ==> !redraw && final(self).view() == old(self).view(),
    {
        if !self.is_open {
            return false;
        }
        self.list.mouse_down(mx, my, Self::geom(x, y))
    }

    /// A release on the open dialog: the scroll buttons scroll, and a
    /// release over a pressed list button clicks it.
    fn handle_mouse_up(&mut self, mx: i32, my: i32, x: i32, y: i32) -> (redraw: bool)
        ensures
            old(self).view().is_open ==> (final(self).view(), redraw) == picker_mouse_up(old(self).view(), mx, my, x, y),
            !old(self).view().is_open ==> !redraw && final(self).view() == old(self).view(),
    {
        if !self.is_open {
            return false;
        }
        let n = self.list.items.len();
        let m: i128 = (n as i128) * 30 - 150;
        let max_scroll: i128 = if m > 0 { m } else { 0 };
        let (redraw, clicked) = self.list.mouse_up(mx, my, Self::geom(x, y), max_scroll);
        match clicked {
            Some(text) => {
                self.handle_click(&text);
                true
            },
            None => redraw,
        }
    }
}


/// In the picker, opening a folder and then choosing the way up returns to
/// the folder one started in.
pub proof fn law_picker_into_then_up(p: PickerView, name: Seq<char>)
    requires
        crate::paths::is_clean_path(p.path),
        crate::paths::is_component(name),
    ensures
        click(p, entry_text(name, true)).1,
        click(p, entry_text(name, true)).0.path == child_path(p.path, name),
        click(p, entry_text(name, true)).0.list.scroll == 0,
        click(click(p, entry_text(name, true)).0, up_text()).1,
        click(click(p, entry_text(name, true)).0, up_text()).0.path == p.path,
{
    reveal_strlit("⬆️ ..");
    let t = entry_text(name, true);
    assert(t[0] == folder_icon());
    assert(!is_up_text(t)) by {
        if is_up_text(t) {
            assert(t.take(2)[0] == up_text().take(2)[0]);
        }
    }
    assert(after_icon(t) =~= name);
    assert(is_up_text(up_text()));
    crate::paths::law_parent_of_child(p.path, name);
}

} // verus!
