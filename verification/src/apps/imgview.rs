//! The image viewer: an Open button, a file picker, and the image chosen,
//! drawn below a top bar.

use crate::apps::notepad::picker_opened;
use crate::ipc::Rgba;
use crate::services::wm::arith::{add_w, sub_w, wadd, wsub};
use crate::ui::list::{entry_views, list_mouse_down, list_mouse_move, released, with_entries, DirEntry, ListView};
use crate::ui::picker::{list_fits, picker_draw, picker_initial, picker_mouse_up, FilePicker, PickerView};
use crate::ui::{
    button_draw, button_view, draw_views, inside, inside_exec, push_rect, rect_v, Button, ButtonView, DrawCmd, DrawView,
    Widget, Window,
};
use vstd::prelude::*;

verus! {

/// The viewer as a mathematical value.
pub struct ImgViewV {
    pub win: Window,
    pub open_btn: ButtonView,
    pub picker: PickerView,
    pub image_loaded: bool,
}

/// The image viewer.
pub struct ImgView {
    win: Window,
    btn_open: Button,
    picker: FilePicker,
    image_loaded: bool,
}

/// What a frame of the viewer at `(x, y)` of size `w` by `h` draws.
pub open spec fn frame_draw(v: ImgViewV, x: i32, y: i32, w: i32, h: i32) -> Seq<DrawView> {
    seq![rect_v(x, y, w, h, Rgba { r: 10, g: 10, b: 15, a: 100 })]
        + (if v.image_loaded { seq![DrawView::Image { id: 1, x, y: wadd(y, 40), w, h: wsub(h, 40) }] } else { Seq::empty() })
        + seq![rect_v(x, y, w, 40, Rgba { r: 15, g: 15, b: 20, a: 100 })]
        + button_draw(v.open_btn, wadd(x, 10), wadd(y, 5))
        + (if v.picker.is_open { picker_draw(v.picker, wadd(x, 20), wadd(y, 20)) } else { Seq::empty() })
}

/// A release of the pointer: over the open picker it goes to the picker,
/// and the file chosen there is loaded; otherwise a release over the
/// pressed Open button opens the picker. The second part is the file to
/// load, the third whether to redraw.
pub open spec fn release_spec(v: ImgViewV, mx: i32, my: i32) -> (ImgViewV, Option<Seq<char>>, bool) {
    if v.picker.is_open {
        let (p1, redraw) = picker_mouse_up(v.picker, mx, my, wadd(v.win.x, 20), wadd(v.win.y, 20));
        match p1.selected {
            Some(path) => (ImgViewV { picker: PickerView { selected: None, ..p1 }, image_loaded: true, ..v }, Some(path), true),
            None => (ImgViewV { picker: p1, ..v }, None, redraw),
        }
    } else if v.open_btn.pressed {
        let inside_btn = inside(mx, my, wadd(v.win.x, 10), wadd(v.win.y, 5), v.open_btn.w, v.open_btn.h);
        (
            ImgViewV {
                open_btn: released(v.open_btn),
                picker: if inside_btn { picker_opened(v.picker) } else { v.picker },
                ..v
            },
            None,
            true,
        )
    } else {
        (v, None, false)
    }
}

impl ImgView {
    pub closed spec fn view(&self) -> ImgViewV {
        ImgViewV { win: self.win, open_btn: button_view(self.btn_open), picker: self.picker.view(), image_loaded: self.image_loaded }
    }

    /// The viewer in window `win`. With a file to show it asks to load
    /// it; without one it opens the picker.
    pub fn new(win: Window, arg: Option<String>) -> (r: (Self, Vec<DrawCmd>))
        ensures
            r.0.view().win == win,
            r.0.view().open_btn == (ButtonView { text: "🖼️ Open Image"@, w: 140, h: 30, hovered: false, pressed: false }),
            match arg {
                Some(path) => {
                    &&& r.0.view().image_loaded
                    &&& r.0.view().picker == picker_initial()
                    &&& draw_views(r.1@) == seq![DrawView::LoadImage { id: 1, url: path@ }]
                },
                None => {
                    &&& !r.0.view().image_loaded
                    &&& r.0.view().picker == picker_opened(picker_initial())
                    &&& r.1@.len() == 0
                },
            },
    {
        let mut app = ImgView { win, btn_open: Button::new("🖼️ Open Image", 140, 30), picker: FilePicker::new(), image_loaded: false };
        let mut cmds: Vec<DrawCmd> = Vec::new();
        match arg {
            Some(path) => {
                let c = DrawCmd::LoadImage { id: 1, url: path };
                cmds.push(c);
                app.image_loaded = true;
                assert(draw_views(cmds@) =~= seq![crate::ui::draw_view(c)]);
            },
            None => {
                app.picker.open();
            },
        }
        (app, cmds)
    }

    /// Moves the window and draws a frame.
    pub fn tick(&mut self, x: i32, y: i32, w: i32, h: i32) -> (cmds: Vec<DrawCmd>)
        ensures
            final(self).view() == (ImgViewV { win: Window { x, y, w, h, ..old(self).view().win }, ..old(self).view() }),
            draw_views(cmds@) == frame_draw(old(self).view(), x, y, w, h),
    {
        self.win.x = x;
        self.win.y = y;
        self.win.w = w;
        self.win.h = h;
        let mut cmds = self.win.draw_background(Rgba { r: 10, g: 10, b: 15, a: 100 });
        let ghost c0 = draw_views(cmds@);
        if self.image_loaded {
            let c = DrawCmd::Image { id: 1, x, y: add_w(y, 40), w, h: sub_w(h, 40) };
            cmds.push(c);
            assert(draw_views(cmds@) =~= c0.push(crate::ui::draw_view(c)));
        }
        push_rect(&mut cmds, x, y, w, 40, Rgba { r: 15, g: 15, b: 20, a: 100 });
        let b = self.btn_open.draw(add_w(x, 10), add_w(y, 5));
        crate::ui::list::append_cmds(&mut cmds, b);
        if self.picker.is_open() {
            let p = self.picker.draw(add_w(x, 20), add_w(y, 20));
            crate::ui::list::append_cmds(&mut cmds, p);
        }
        assert(draw_views(cmds@) =~= frame_draw(old(self).view(), x, y, w, h));
        cmds
    }

    /// The picker, when open, or else the Open button tracks the pointer;
    /// 1 when something changed.
    pub fn handle_mouse_move(&mut self, mx: i32, my: i32) -> (redraw: i32)
        ensures
            ({
                let v = old(self).view();
                if v.picker.is_open {
                    let (l, r) = list_mouse_move(v.picker.list, mx, my, crate::ui::picker::picker_geom(wadd(v.win.x, 20), wadd(v.win.y, 20)));
                    final(self).view() == (ImgViewV { picker: PickerView { list: l, ..v.picker }, ..v }) && redraw == (if r { 1i32 } else { 0i32 })
                } else {
                    let h = inside(mx, my, wadd(v.win.x, 10), wadd(v.win.y, 5), v.open_btn.w, v.open_btn.h);
                    final(self).view() == (ImgViewV { open_btn: ButtonView { hovered: h, ..v.open_btn }, ..v })
                        && redraw == (if h != v.open_btn.hovered { 1i32 } else { 0i32 })
                }
            }),
    {
        let x = self.win.x;
        let y = self.win.y;
        let redraw = if self.picker.is_open() {
            self.picker.handle_mouse_move(mx, my, add_w(x, 20), add_w(y, 20))
        } else {
            self.btn_open.handle_mouse_move(mx, my, add_w(x, 10), add_w(y, 5))
        };
        if redraw { 1 } else { 0 }
    }

    /// A press goes to the open picker, or else to the Open button; 1 when
    /// it landed on something.
    pub fn handle_mouse_down(&mut self, mx: i32, my: i32) -> (redraw: i32)
        ensures
            ({
                let v = old(self).view();
                if v.picker.is_open {
                    let (l, r) = list_mouse_down(v.picker.list, mx, my, crate::ui::picker::picker_geom(wadd(v.win.x, 20), wadd(v.win.y, 20)));
                    final(self).view() == (ImgViewV { picker: PickerView { list: l, ..v.picker }, ..v }) && redraw == (if r { 1i32 } else { 0i32 })
                } else {
                    let hit = inside(mx, my, wadd(v.win.x, 10), wadd(v.win.y, 5), v.open_btn.w, v.open_btn.h);
                    final(self).view() == (ImgViewV { open_btn: ButtonView { pressed: v.open_btn.pressed || hit, ..v.open_btn }, ..v })
                        && redraw == (if hit { 1i32 } else { 0i32 })
                }
            }),
    {
        let x = self.win.x;
        let y = self.win.y;
        let redraw = if self.picker.is_open() {
            self.picker.handle_mouse_down(mx, my, add_w(x, 20), add_w(y, 20))
        } else {
            self.btn_open.handle_mouse_down(mx, my, add_w(x, 10), add_w(y, 5))
        };
        if redraw { 1 } else { 0 }
    }

    /// A release (see `release_spec`); a file chosen in the picker is
    /// loaded into the image slot.
    pub fn handle_mouse_up(&mut self, mx: i32, my: i32) -> (r: (i32, Vec<DrawCmd>))
        ensures
            ({
                let (v1, load, redraw) = release_spec(old(self).view(), mx, my);
                &&& final(self).view() == v1
                &&& r.0 == (if redraw { 1i32 } else { 0i32 })
                &&& draw_views(r.1@) == match load {
                    Some(url) => seq![DrawView::LoadImage { id: 1, url }],
                    None => Seq::<DrawView>::empty(),
                }
            }),
    {
        let x = self.win.x;
        let y = self.win.y;
        let mut cmds: Vec<DrawCmd> = Vec::new();
        let mut redraw = false;
        if self.picker.is_open() {
            redraw = self.picker.handle_mouse_up(mx, my, add_w(x, 20), add_w(y, 20));
            match self.picker.take_selected() {
                Some(path) => {
                    let c = DrawCmd::LoadImage { id: 1, url: path };
                    cmds.push(c);
                    self.image_loaded = true;
                    redraw = true;
                    assert(draw_views(cmds@) =~= seq![crate::ui::draw_view(c)]);
                },
                None => {
                    assert(draw_views(cmds@) =~= Seq::<DrawView>::empty());
                },
            }
        } else {
            if self.btn_open.is_pressed {
                let inside_btn = inside_exec(mx, my, add_w(x, 10), add_w(y, 5), self.btn_open.w, self.btn_open.h);
                self.btn_open.is_pressed = false;
                redraw = true;
                if inside_btn {
                    self.picker.open();
                }
            }
            assert(draw_views(cmds@) =~= Seq::<DrawView>::empty());
        }
        (if redraw { 1 } else { 0 }, cmds)
    }

    /// The folder whose entries the picker waits for, if it waits.
    pub fn wanted_listing(&self) -> (r: Option<String>)
        ensures
            match r {
                Some(p) => self.view().picker.listing_wanted && p@ == self.view().picker.path,
                None => !self.view().picker.listing_wanted,
            },
    {
        self.picker.wanted_listing()
    }

    /// Whether `n` more entries still fit in the picker's list.
    pub fn listing_fits(&self, n: usize) -> (r: bool)
        ensures
            r == crate::ui::picker::list_fits(self.view().picker.list.items.len() + n as nat),
    {
        self.picker.listing_fits(n)
    }

    /// Passes a folder listing to the picker.
    pub fn set_entries(&mut self, entries: Vec<DirEntry>)
        requires
            list_fits(old(self).view().picker.list.items.len() + entries@.len()),
        ensures
            final(self).view() == (ImgViewV {
                picker: PickerView {
                    list: ListView {
                        items: with_entries(old(self).view().picker.list.items, entry_views(entries@), 250, 25, 20, 70, 30),
                        ..old(self).view().picker.list
                    },
                    listing_wanted: false,
                    ..old(self).view().picker
                },
                ..old(self).view()
            }),
    {
        self.picker.set_entries(entries);
    }

    /// Whether an image was asked for.
    pub fn image_loaded(&self) -> (r: bool)
        ensures
            r == self.view().image_loaded,
    {
        self.image_loaded
    }
}

} // verus!
