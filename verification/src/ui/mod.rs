//! The widget toolkit of the desktop applications: buttons, labels, windows
//! and a file picker. Widgets describe what to draw as a list of drawing
//! commands that the host carries out.

pub mod list;
pub mod panel;
pub mod picker;

use crate::ipc::Rgba;
use crate::services::wm::arith::{add_w, div_t, sub_w, tdiv, wadd, wsub};
use crate::text::copy_str;
use vstd::prelude::*;

verus! {

/// One drawing operation. Positions and sizes are pixels, colours are
/// hundredths, font sizes are pixels.
#[derive(Debug)]
pub enum DrawCmd {
    Rect { x: i32, y: i32, w: i32, h: i32, color: Rgba, radius: u32, shadow_blur: u32 },
    Text { x: i32, y: i32, text: String, font_size: u32, color: Rgba },
    /// Clip the text that follows to a rectangle.
    ClipText { x: i32, y: i32, w: i32, h: i32 },
    ClearClipText,
    ClearText,
    LoadImage { id: u32, url: String },
    Image { id: u32, x: i32, y: i32, w: i32, h: i32 },
}

/// A drawing operation as a mathematical value.
pub enum DrawView {
    Rect { x: i32, y: i32, w: i32, h: i32, color: Rgba, radius: u32, shadow_blur: u32 },
    Text { x: i32, y: i32, text: Seq<char>, font_size: u32, color: Rgba },
    ClipText { x: i32, y: i32, w: i32, h: i32 },
    ClearClipText,
    ClearText,
    LoadImage { id: u32, url: Seq<char> },
    Image { id: u32, x: i32, y: i32, w: i32, h: i32 },
}

pub open spec fn draw_view(c: DrawCmd) -> DrawView {
    match c {
        DrawCmd::Rect { x, y, w, h, color, radius, shadow_blur } => DrawView::Rect { x, y, w, h, color, radius, shadow_blur },
        DrawCmd::Text { x, y, text, font_size, color } => DrawView::Text { x, y, text: text@, font_size, color },
        DrawCmd::ClipText { x, y, w, h } => DrawView::ClipText { x, y, w, h },
        DrawCmd::ClearClipText => DrawView::ClearClipText,
        DrawCmd::ClearText => DrawView::ClearText,
        DrawCmd::LoadImage { id, url } => DrawView::LoadImage { id, url: url@ },
        DrawCmd::Image { id, x, y, w, h } => DrawView::Image { id, x, y, w, h },
    }
}

pub open spec fn draw_views(cs: Seq<DrawCmd>) -> Seq<DrawView> {
    cs.map_values(|c: DrawCmd| draw_view(c))
}

pub open spec fn rect_v(x: i32, y: i32, w: i32, h: i32, color: Rgba) -> DrawView {
    DrawView::Rect { x, y, w, h, color, radius: 0, shadow_blur: 0 }
}

pub open spec fn text_v(x: i32, y: i32, text: Seq<char>, font_size: u32, color: Rgba) -> DrawView {
    DrawView::Text { x, y, text, font_size, color }
}

pub open spec fn rgb(r: u32, g: u32, b: u32) -> Rgba {
    Rgba { r, g, b, a: 100 }
}

/// Appends a rectangle without rounding or shadow.
pub fn push_rect(out: &mut Vec<DrawCmd>, x: i32, y: i32, w: i32, h: i32, color: Rgba)
    ensures
        draw_views(final(out)@) == draw_views(old(out)@).push(rect_v(x, y, w, h, color)),
{
    let ghost o = out@;
    let c = DrawCmd::Rect { x, y, w, h, color, radius: 0, shadow_blur: 0 };
    out.push(c);
    assert(draw_views(out@) =~= draw_views(o).push(draw_view(c)));
}

/// Appends a line of text.
pub fn push_text(out: &mut Vec<DrawCmd>, x: i32, y: i32, text: String, font_size: u32, color: Rgba)
    ensures
        draw_views(final(out)@) == draw_views(old(out)@).push(text_v(x, y, text@, font_size, color)),
{
    let ghost o = out@;
    let ghost t = text@;
    let c = DrawCmd::Text { x, y, text, font_size, color };
    out.push(c);
    assert(draw_views(out@) =~= draw_views(o).push(text_v(x, y, t, font_size, color)));
}

/// Something that draws itself at a position and reacts to the pointer.
/// The pointer handlers return whether the widget needs to be redrawn; a
/// widget that does not handle the pointer ignores it.
pub trait Widget: Sized {
    fn draw(&self, x: i32, y: i32) -> Vec<DrawCmd>;

    fn handle_mouse_move(&mut self, mx: i32, my: i32, x: i32, y: i32) -> (redraw: bool)
        default_ensures
            !redraw,
            *final(self) == *old(self),
    {
        false
    }

    fn handle_mouse_down(&mut self, mx: i32, my: i32, x: i32, y: i32) -> (redraw: bool)
        default_ensures
            !redraw,
            *final(self) == *old(self),
    {
        false
    }

    fn handle_mouse_up(&mut self, mx: i32, my: i32, x: i32, y: i32) -> (redraw: bool)
        default_ensures
            !redraw,
            *final(self) == *old(self),
    {
        false
    }
}

/// A line of text.
pub struct Label {
    pub text: String,
    pub font_size: u32,
    pub color: Rgba,
}

impl Widget for Label {
    fn draw(&self, x: i32, y: i32) -> (cmds: Vec<DrawCmd>)
        ensures
            draw_views(cmds@) == seq![text_v(x, y, self.text@, self.font_size, self.color)],
    {
        let mut cmds: Vec<DrawCmd> = Vec::new();
        push_text(&mut cmds, x, y, self.text.clone(), self.font_size, self.color);
        assert(draw_views(cmds@) =~= seq![text_v(x, y, self.text@, self.font_size, self.color)]);
        cmds
    }
}

/// A push button of a fixed size whose label is drawn at its left edge.
/// It carries no click action of its own: on a release, the application
/// that owns the button tests whether it was pressed and lies under the
/// pointer, and then does what that button is for.
pub struct Button {
    pub text: String,
    pub w: i32,
    pub h: i32,
    pub is_hovered: bool,
    pub is_pressed: bool,
}

/// The point lies in the rectangle at `(x, y)` of size `w` by `h`, edges
/// included.
pub open spec fn inside(mx: i32, my: i32, x: i32, y: i32, w: i32, h: i32) -> bool {
    mx >= x && mx <= wadd(x, w) && my >= y && my <= wadd(y, h)
}

pub fn inside_exec(mx: i32, my: i32, x: i32, y: i32, w: i32, h: i32) -> (r: bool)
    ensures
        r == inside(mx, my, x, y, w, h),
{
    mx >= x && mx <= add_w(x, w) && my >= y && my <= add_w(y, h)
}

/// A button as a mathematical value.
pub struct ButtonView {
    pub text: Seq<char>,
    pub w: i32,
    pub h: i32,
    pub hovered: bool,
    pub pressed: bool,
}

pub open spec fn button_view(b: Button) -> ButtonView {
    ButtonView { text: b.text@, w: b.w, h: b.h, hovered: b.is_hovered, pressed: b.is_pressed }
}

/// What a button draws at `(x, y)`.
pub open spec fn button_draw(b: ButtonView, x: i32, y: i32) -> Seq<DrawView> {
    let color = if b.pressed {
        Rgba { r: 10, g: 10, b: 15, a: 80 }
    } else if b.hovered {
        Rgba { r: 25, g: 25, b: 30, a: 70 }
    } else {
        Rgba { r: 15, g: 15, b: 20, a: 50 }
    };
    seq![
        DrawView::Rect { x, y, w: b.w, h: b.h, color, radius: 6, shadow_blur: 2 },
        text_v(wadd(x, 12), wsub(wadd(y, tdiv(b.h, 2)), 6), b.text, 14, Rgba { r: 90, g: 90, b: 90, a: 100 }),
    ]
}

impl Button {
    /// A button that is neither hovered nor pressed.
    pub fn new(text: &str, w: i32, h: i32) -> (b: Self)
        ensures
            b.text@ == text@,
            b.w == w,
            b.h == h,
            !b.is_hovered,
            !b.is_pressed,
    {
        Self { text: copy_str(text), w, h, is_hovered: false, is_pressed: false }
    }
}

impl Widget for Button {
    fn draw(&self, x: i32, y: i32) -> (cmds: Vec<DrawCmd>)
        ensures
            draw_views(cmds@) == button_draw(button_view(*self), x, y),
    {
        let color = if self.is_pressed {
            Rgba { r: 10, g: 10, b: 15, a: 80 }
        } else if self.is_hovered {
            Rgba { r: 25, g: 25, b: 30, a: 70 }
        } else {
            Rgba { r: 15, g: 15, b: 20, a: 50 }
        };
        let mut cmds: Vec<DrawCmd> = Vec::new();
        let c = DrawCmd::Rect { x, y, w: self.w, h: self.h, color, radius: 6, shadow_blur: 2 };
        cmds.push(c);
        let text_x = add_w(x, 12);
        let text_y = sub_w(add_w(y, div_t(self.h, 2)), 6);
        push_text(&mut cmds, text_x, text_y, self.text.clone(), 14, Rgba { r: 90, g: 90, b: 90, a: 100 });
        assert(draw_views(cmds@) =~= button_draw(button_view(*self), x, y));
        cmds
    }

    /// The hover state follows the pointer; redraw when it changes.
    fn handle_mouse_move(&mut self, mx: i32, my: i32, x: i32, y: i32) -> (redraw: bool)
        ensures
            final(self).is_hovered == inside(mx, my, x, y, old(self).w, old(self).h),
            redraw == (final(self).is_hovered != old(self).is_hovered),
            final(self).text == old(self).text,
            final(self).w == old(self).w,
            final(self).h == old(self).h,
            final(self).is_pressed == old(self).is_pressed,
    {
        let inside = inside_exec(mx, my, x, y, self.w, self.h);
        if inside != self.is_hovered {
            self.is_hovered = inside;
            true
        } else {
            false
        }
    }

    /// A press inside the button presses it.
    fn handle_mouse_down(&mut self, mx: i32, my: i32, x: i32, y: i32) -> (redraw: bool)
        ensures
            redraw == inside(mx, my, x, y, old(self).w, old(self).h),
            final(self).is_pressed == (old(self).is_pressed || redraw),
            final(self).text == old(self).text,
            final(self).w == old(self).w,
            final(self).h == old(self).h,
            final(self).is_hovered == old(self).is_hovered,
    {
        let inside = inside_exec(mx, my, x, y, self.w, self.h);
        if inside {
            self.is_pressed = true;
            true
        } else {
            false
        }
    }

    /// Any release lets go of a pressed button; redraw when it was pressed.
    fn handle_mouse_up(&mut self, mx: i32, my: i32, x: i32, y: i32) -> (redraw: bool)
        ensures
            redraw == old(self).is_pressed,
            !final(self).is_pressed,
            final(self).text == old(self).text,
            final(self).w == old(self).w,
            final(self).h == old(self).h,
            final(self).is_hovered == old(self).is_hovered,
    {
        let mut needs_redraw = false;
        if self.is_pressed {
            self.is_pressed = false;
            needs_redraw = true;
        }
        needs_redraw
    }
}

/// The kind of host application window that a title asks for.
pub open spec fn app_type_for_title(title: Seq<char>) -> u32 {
    if title == "Terminal"@ {
        0
    } else if title == "Calculator"@ {
        1
    } else if title == "File Manager"@ {
        2
    } else if title == "Notepad"@ {
        3
    } else {
        4
    }
}

pub fn app_type_for_title_exec(title: &str) -> (r: u32)
    ensures
        r == app_type_for_title(title@),
{
    if crate::text::str_eq(title, "Terminal") {
        0
    } else if crate::text::str_eq(title, "Calculator") {
        1
    } else if crate::text::str_eq(title, "File Manager") {
        2
    } else if crate::text::str_eq(title, "Notepad") {
        3
    } else {
        4
    }
}

/// An application window: the host creates it (given the kind from
/// `app_type_for_title`) and returns its id; the window manager moves and
/// resizes it.
pub struct Window {
    pub id: u32,
    pub x: i32,
    pub y: i32,
    pub w: i32,
    pub h: i32,
}

impl Window {
    /// The window the host created with id `id`.
    pub fn new(id: u32, x: i32, y: i32, w: i32, h: i32) -> (win: Self)
        ensures
            win == (Window { id, x, y, w, h }),
    {
        Self { id, x, y, w, h }
    }

    /// Fills the window with an opaque colour.
    pub fn draw_background(&self, color: Rgba) -> (cmds: Vec<DrawCmd>)
        ensures
            draw_views(cmds@) == seq![rect_v(self.x, self.y, self.w, self.h, Rgba { a: 100, ..color })],
    {
        let mut cmds: Vec<DrawCmd> = Vec::new();
        push_rect(&mut cmds, self.x, self.y, self.w, self.h, Rgba { a: 100, ..color });
        assert(draw_views(cmds@) =~= seq![rect_v(self.x, self.y, self.w, self.h, Rgba { a: 100, ..color })]);
        cmds
    }

    /// Pointer events on the frame are the window manager's business.
    pub fn handle_mouse_down(&mut self, mx: i32, my: i32) -> (redraw: bool)
        ensures
            !redraw,
            *final(self) == *old(self),
    {
        false
    }

    /// Pointer events on the frame are the window manager's business.
    pub fn handle_mouse_up(&mut self) -> (redraw: bool)
        ensures
            !redraw,
            *final(self) == *old(self),
    {
        false
    }

    /// Pointer events on the frame are the window manager's business.
    pub fn handle_mouse_move(&mut self, mx: i32, my: i32) -> (redraw: bool)
        ensures
            !redraw,
            *final(self) == *old(self),
    {
        false
    }
}

} // verus!
