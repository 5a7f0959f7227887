//! Painting the desktop: the drawing messages the window manager sends to
//! the display service on every repaint.

use super::arith::{add_w, div_t, mul_w, sub_w, tdiv, wadd, wmul, wsub};
use super::events::{dock_geometry, visible_lines, windows_view};
use super::model::{WinModel, Window, WindowManager, WindowState, WmModel, DOCK_H, TITLE_H};
use crate::ipc::{draw_op, draw_ops, rgba, DrawOp, MessagePayload, Rgba};
use crate::text::{copy_str, str_eq};
use vstd::prelude::*;

verus! {

pub open spec fn col(r: u32, g: u32, b: u32, a: u32) -> Rgba {
    Rgba { r, g, b, a }
}

pub open spec fn white() -> Rgba {
    col(100, 100, 100, 100)
}

pub open spec fn light() -> Rgba {
    col(90, 90, 90, 100)
}

pub open spec fn rect_op(x: i32, y: i32, w: i32, h: i32, color: Rgba, radius: u32, shadow_blur: u32) -> DrawOp {
    DrawOp::Rect { x, y, w, h, color, radius, shadow_blur }
}

/// The first line shown in a terminal window and how many lines are shown.
pub open spec fn shown_lines(w: WinModel) -> (int, int) {
    let max_lines = visible_lines(w.h) as int;
    let len = w.wrapped.len() as int;
    let start = if w.is_pager {
        let lim = if len >= max_lines { len - max_lines } else { 0 };
        if (w.scroll_y as int) <= lim { w.scroll_y as int } else { lim }
    } else if len > max_lines {
        len - max_lines
    } else {
        0
    };
    let count = if len - start <= max_lines { len - start } else { max_lines };
    (start, count)
}

/// Lines `start..start + count` of a terminal, one below the other from `y`.
pub open spec fn line_ops(w: WinModel, start: int, count: int, y: i32) -> Seq<DrawOp>
    decreases count,
{
    if count <= 0 {
        Seq::empty()
    } else {
        seq![DrawOp::Text { x: wadd(w.x, 10), y, text: w.wrapped[start], font_size: 14, color: col(80, 80, 80, 100) }]
            + line_ops(w, start + 1, count - 1, wadd(y, 20))
    }
}

/// The body of a terminal window: its background, the pager title, and the
/// visible lines.
pub open spec fn terminal_body_ops(w: WinModel) -> Seq<DrawOp> {
    let bg = rect_op(w.x, wadd(w.y, TITLE_H), w.w, wsub(w.h, TITLE_H), col(10, 10, 12, 100), 0, 0);
    let (start, count) = shown_lines(w);
    let text_y = wadd(wadd(w.y, TITLE_H), 20);
    if w.is_pager && w.pager_title is Some {
        seq![bg, DrawOp::Text {
            x: wadd(w.x, 10),
            y: wadd(wadd(w.y, TITLE_H), 5),
            text: w.pager_title->0,
            font_size: 14,
            color: col(90, 50, 80, 100),
        }] + line_ops(w, start, count, wadd(text_y, 10))
    } else {
        seq![bg] + line_ops(w, start, count, text_y)
    }
}

/// One window: frame, title, the three title-bar buttons, and its body.
pub open spec fn window_ops(w: WinModel, active: bool) -> Seq<DrawOp> {
    let frame = seq![
        rect_op(w.x, w.y, w.w, w.h, col(10, 10, 12, if active { 85 } else { 68 }), 12, if active { 15 } else { 0 }),
        DrawOp::Text { x: wadd(w.x, 10), y: wadd(w.y, 6), text: w.title, font_size: 16, color: light() },
        rect_op(w.x, wadd(w.y, TITLE_H), w.w, 1, col(25, 25, 30, 100), 0, 0),
        rect_op(wsub(wadd(w.x, w.w), 24), wadd(w.y, 6), 18, 18, col(90, 30, 30, 100), 9, 0),
        rect_op(wsub(wadd(w.x, w.w), 48), wadd(w.y, 6), 18, 18, col(90, 70, 20, 100), 9, 0),
        rect_op(wsub(wadd(w.x, w.w), 72), wadd(w.y, 6), 18, 18, col(20, 80, 30, 100), 9, 0),
    ];
    if w.title != "Terminal"@ {
        frame.push(DrawOp::GuiApp { id: w.id, x: w.x, y: wadd(w.y, TITLE_H), w: w.w, h: wsub(w.h, TITLE_H) })
    } else {
        frame + terminal_body_ops(w)
    }
}

/// The windows with index below `i`, back to front, minimised ones left out.
pub open spec fn windows_ops(ws: Seq<WinModel>, start_menu_open: bool, i: int) -> Seq<DrawOp>
    decreases i,
{
    if i <= 0 || i > ws.len() {
        Seq::empty()
    } else if ws[i - 1].state == WindowState::Minimized {
        windows_ops(ws, start_menu_open, i - 1)
    } else {
        windows_ops(ws, start_menu_open, i - 1) + window_ops(ws[i - 1], !start_menu_open && i - 1 == ws.len() - 1)
    }
}

/// The dock icon of a window: its colour and glyph.
pub open spec fn icon_style(title: Seq<char>) -> (Rgba, Seq<char>) {
    if title == "Terminal"@ {
        (col(20, 80, 40, 100), "💻"@)
    } else if title == "Calculator"@ {
        (col(80, 60, 20, 100), "🖩"@)
    } else if title == "Notepad"@ {
        (col(80, 40, 60, 100), "📝"@)
    } else if title == "File Manager"@ {
        (col(40, 40, 80, 100), "📁"@)
    } else {
        (col(50, 50, 50, 100), "❓"@)
    }
}

pub open spec fn icon_ops(w: WinModel, icon_x: i32, dock_y: i32) -> Seq<DrawOp> {
    let (color, glyph) = icon_style(w.title);
    let base = seq![
        rect_op(icon_x, wadd(dock_y, 10), 30, 30, color, 8, 5),
        DrawOp::CenteredText { x: wadd(icon_x, 15), y: wadd(dock_y, 25), text: glyph, font_size: 18, color: white() },
    ];
    if w.state != WindowState::Minimized {
        base.push(rect_op(wadd(icon_x, 12), wadd(dock_y, 42), 6, 6, col(80, 80, 80, 100), 3, 2))
    } else {
        base
    }
}

/// Dock icons of the windows with index below `i`.
pub open spec fn dock_icons_ops(ws: Seq<WinModel>, dock_x: i32, dock_y: i32, i: int) -> Seq<DrawOp>
    decreases i,
{
    if i <= 0 || i > ws.len() {
        Seq::empty()
    } else {
        dock_icons_ops(ws, dock_x, dock_y, i - 1) + icon_ops(
            ws[i - 1],
            wadd(wadd(dock_x, 60), wmul((i - 1) as i32, 40)),
            dock_y,
        )
    }
}

pub open spec fn menu_entry_ops(dock_x: i32, dock_y: i32, top: i32, color: Rgba, glyph: Seq<char>, label: Seq<char>) -> Seq<DrawOp> {
    seq![
        rect_op(wadd(dock_x, 20), wsub(dock_y, top), 40, 40, color, 8, 5),
        DrawOp::CenteredText { x: wadd(dock_x, 40), y: wsub(dock_y, (top - 20) as i32), text: glyph, font_size: 20, color: white() },
        DrawOp::Text { x: wadd(dock_x, 70), y: wsub(dock_y, (top - 10) as i32), text: label, font_size: 16, color: light() },
    ]
}

pub open spec fn start_menu_ops(dock_x: i32, dock_y: i32) -> Seq<DrawOp> {
    seq![rect_op(dock_x, wsub(dock_y, 320), 250, 300, col(12, 12, 15, 95), 16, 30)]
        + menu_entry_ops(dock_x, dock_y, 300, col(20, 80, 40, 100), "💻"@, "Terminal"@)
        + menu_entry_ops(dock_x, dock_y, 250, col(80, 60, 20, 100), "🖩"@, "Calculator"@)
        + menu_entry_ops(dock_x, dock_y, 200, col(40, 40, 80, 100), "📁"@, "File Manager"@)
        + menu_entry_ops(dock_x, dock_y, 150, col(80, 40, 60, 100), "📝"@, "Notepad"@)
        + menu_entry_ops(dock_x, dock_y, 100, col(20, 60, 80, 100), "🖼️"@, "Image Viewer"@)
}

/// Everything painted on a repaint, in order.
pub open spec fn redraw_ops(m: WmModel) -> Seq<DrawOp> {
    let n = m.windows.len();
    let (dock_x, dock_y, dock_w) = dock_geometry(n, m.screen_w, m.screen_h);
    let dock = seq![
        rect_op(dock_x, dock_y, dock_w, DOCK_H, col(15, 15, 18, 85), 20, 15),
        DrawOp::Text { x: wsub(wadd(dock_x, dock_w), 60), y: wadd(dock_y, 26), text: m.last_time_str, font_size: 16, color: light() },
        rect_op(wadd(dock_x, 10), wadd(dock_y, 10), 30, 30, col(90, 40, 40, 100), 15, 5),
        DrawOp::CenteredText { x: wadd(dock_x, 25), y: wadd(dock_y, 25), text: "🐒"@, font_size: 18, color: white() },
    ];
    seq![DrawOp::ClearScreen, DrawOp::ClearText, rect_op(0, 0, m.screen_w, m.screen_h, col(8, 12, 18, 100), 0, 0)]
        + windows_ops(m.windows, m.start_menu_open, n as int)
        + dock
        + dock_icons_ops(m.windows, dock_x, dock_y, n as int)
        + if m.start_menu_open { start_menu_ops(dock_x, dock_y) } else { Seq::empty() }
}


// ---------------------------------------------------------------------
// Building the messages

fn emit(out: &mut Vec<MessagePayload>, p: MessagePayload)
    ensures
        final(out)@ == old(out)@.push(p),
        draw_ops(final(out)@) == draw_ops(old(out)@).push(draw_op(p)),
{
    let ghost o = out@;
    out.push(p);
    assert(draw_ops(out@) =~= draw_ops(o).push(draw_op(p)));
}

fn rect(x: i32, y: i32, w: i32, h: i32, color: Rgba, radius: u32, shadow_blur: u32) -> (p: MessagePayload)
    ensures
        draw_op(p) == rect_op(x, y, w, h, color, radius, shadow_blur),
{
    MessagePayload::DrawRect { x, y, w, h, color, radius, shadow_blur }
}

fn text(x: i32, y: i32, t: String, font_size: u32, color: Rgba) -> (p: MessagePayload)
    ensures
        draw_op(p) == (DrawOp::Text { x, y, text: t@, font_size, color }),
{
    MessagePayload::DrawText { x, y, text: t, font_size, color }
}

fn centered(x: i32, y: i32, t: String, font_size: u32, color: Rgba) -> (p: MessagePayload)
    ensures
        draw_op(p) == (DrawOp::CenteredText { x, y, text: t@, font_size, color }),
{
    MessagePayload::DrawCenteredText { x, y, text: t, font_size, color }
}

proof fn lemma_view_index(ws: Seq<Window>, i: int)
    requires
        0 <= i < ws.len(),
    ensures
        windows_view(ws)[i] == ws[i]@,
        windows_view(ws).len() == ws.len(),
{
}

fn visible_lines_exec(h: i32) -> (r: usize)
    ensures
        r == visible_lines(h),
        r >= 1,
{
    let q = div_t(sub_w(sub_w(h, TITLE_H), 20), 20);
    if q >= 1 { q as usize } else { 1 }
}

impl WindowManager {
    fn push_lines(&self, out: &mut Vec<MessagePayload>, i: usize, start: usize, count: usize, y0: i32)
        requires
            i < self.windows@.len(),
            start + count <= self.windows@[i as int].terminal_wrapped_lines@.len(),
        ensures
            draw_ops(final(out)@) == draw_ops(old(out)@) + line_ops(self@.windows[i as int], start as int, count as int, y0),
    {
        proof { lemma_view_index(self.windows@, i as int); }
        let ghost w = self@.windows[i as int];
        let win = &self.windows[i];
        let mut k: usize = 0;
        let mut y = y0;
        let ghost base = draw_ops(out@);
        assert(base + line_ops(w, start as int, count as int, y0) =~= draw_ops(out@) + line_ops(w, start as int, count as int, y0));
        while k < count
            invariant
                k <= count,
                start + count <= win.terminal_wrapped_lines.len(),
                w == win@,
                base + line_ops(w, start as int, count as int, y0) == draw_ops(out@) + line_ops(w, (start + k) as int, (count - k) as int, y),
            decreases count - k,
        {
            let ghost before = draw_ops(out@);
            assert(start + k < win.terminal_wrapped_lines@.len());
            let line = win.terminal_wrapped_lines[start + k].clone();
            assert(w.wrapped[(start + k) as int] == line@);
            emit(out, text(add_w(win.x, 10), y, line, 14, rgba(80, 80, 80, 100)));
            let ghost rest = line_ops(w, (start + k + 1) as int, (count - k - 1) as int, wadd(y, 20));
            assert(line_ops(w, (start + k) as int, (count - k) as int, y) == seq![
                DrawOp::Text { x: wadd(w.x, 10), y, text: w.wrapped[(start + k) as int], font_size: 14, color: col(80, 80, 80, 100) },
            ] + rest);
            assert(before + line_ops(w, (start + k) as int, (count - k) as int, y) =~= draw_ops(out@) + rest);
            k = k + 1;
            y = add_w(y, 20);
        }
        assert(line_ops(w, (start + count) as int, 0, y) =~= Seq::<DrawOp>::empty());
        assert(draw_ops(out@) + Seq::<DrawOp>::empty() =~= draw_ops(out@));
    }

    fn push_window(&self, out: &mut Vec<MessagePayload>, i: usize, active: bool)
        requires
            i < self.windows@.len(),
        ensures
            draw_ops(final(out)@) == draw_ops(old(out)@) + window_ops(self@.windows[i as int], active),
    {
        proof { lemma_view_index(self.windows@, i as int); }
        let ghost w = self@.windows[i as int];
        let ghost base = draw_ops(out@);
        let win = &self.windows[i];
        let right = add_w(win.x, win.w);
        emit(out, rect(win.x, win.y, win.w, win.h, rgba(10, 10, 12, if active { 85 } else { 68 }), 12, if active { 15 } else { 0 }));
        emit(out, text(add_w(win.x, 10), add_w(win.y, 6), win.title.clone(), 16, rgba(90, 90, 90, 100)));
        emit(out, rect(win.x, add_w(win.y, TITLE_H), win.w, 1, rgba(25, 25, 30, 100), 0, 0));
        emit(out, rect(sub_w(right, 24), add_w(win.y, 6), 18, 18, rgba(90, 30, 30, 100), 9, 0));
        emit(out, rect(sub_w(right, 48), add_w(win.y, 6), 18, 18, rgba(90, 70, 20, 100), 9, 0));
        emit(out, rect(sub_w(right, 72), add_w(win.y, 6), 18, 18, rgba(20, 80, 30, 100), 9, 0));
        let ghost framed = draw_ops(out@);
        let ghost frame = seq![
            rect_op(w.x, w.y, w.w, w.h, col(10, 10, 12, if active { 85 } else { 68 }), 12, if active { 15 } else { 0 }),
            DrawOp::Text { x: wadd(w.x, 10), y: wadd(w.y, 6), text: w.title, font_size: 16, color: light() },
            rect_op(w.x, wadd(w.y, TITLE_H), w.w, 1, col(25, 25, 30, 100), 0, 0),
            rect_op(wsub(wadd(w.x, w.w), 24), wadd(w.y, 6), 18, 18, col(90, 30, 30, 100), 9, 0),
            rect_op(wsub(wadd(w.x, w.w), 48), wadd(w.y, 6), 18, 18, col(90, 70, 20, 100), 9, 0),
            rect_op(wsub(wadd(w.x, w.w), 72), wadd(w.y, 6), 18, 18, col(20, 80, 30, 100), 9, 0),
        ];
        assert(framed =~= base + frame);
        if !str_eq(win.title.as_str(), "Terminal") {
            emit(out, MessagePayload::DrawGuiApp { id: win.id, x: win.x, y: add_w(win.y, TITLE_H), w: win.w, h: sub_w(win.h, TITLE_H) });
            assert(draw_ops(out@) =~= base + window_ops(w, active));
        } else {
            emit(out, rect(win.x, add_w(win.y, TITLE_H), win.w, sub_w(win.h, TITLE_H), rgba(10, 10, 12, 100), 0, 0));
            let max_lines = visible_lines_exec(win.h);
            let len = win.terminal_wrapped_lines.len();
            let start: usize = if win.terminal_is_pager {
                let lim = if len >= max_lines { len - max_lines } else { 0 };
                if win.terminal_scroll_y <= lim { win.terminal_scroll_y } else { lim }
            } else if len > max_lines {
                len - max_lines
            } else {
                0
            };
            let count: usize = if len - start <= max_lines { len - start } else { max_lines };
            assert(shown_lines(w) == (start as int, count as int));
            let mut text_y = add_w(add_w(win.y, TITLE_H), 20);
            let ghost with_bg = draw_ops(out@);
            if win.terminal_is_pager {
                match &win.terminal_pager_title {
                    Some(t) => {
                        emit(out, text(add_w(win.x, 10), add_w(add_w(win.y, TITLE_H), 5), t.clone(), 14, rgba(90, 50, 80, 100)));
                        text_y = add_w(text_y, 10);
                    },
                    None => {},
                }
            }
            let ghost with_title = draw_ops(out@);
            self.push_lines(out, i, start, count, text_y);
            proof {
                let bg = rect_op(w.x, wadd(w.y, TITLE_H), w.w, wsub(w.h, TITLE_H), col(10, 10, 12, 100), 0, 0);
                assert(with_bg =~= framed.push(bg));
                if w.is_pager && w.pager_title is Some {
                    assert(draw_ops(out@) =~= base + window_ops(w, active));
                } else {
                    assert(with_title == with_bg);
                    assert(draw_ops(out@) =~= base + window_ops(w, active));
                }
            }
        }
    }

    fn push_icon(&self, out: &mut Vec<MessagePayload>, i: usize, icon_x: i32, dock_y: i32)
        requires
            i < self.windows@.len(),
        ensures
            draw_ops(final(out)@) == draw_ops(old(out)@) + icon_ops(self@.windows[i as int], icon_x, dock_y),
    {
        proof { lemma_view_index(self.windows@, i as int); }
        let ghost w = self@.windows[i as int];
        let ghost base = draw_ops(out@);
        let win = &self.windows[i];
        let t = win.title.as_str();
        let (color, glyph) = if str_eq(t, "Terminal") {
            (rgba(20, 80, 40, 100), copy_str("💻"))
        } else if str_eq(t, "Calculator") {
            (rgba(80, 60, 20, 100), copy_str("🖩"))
        } else if str_eq(t, "Notepad") {
            (rgba(80, 40, 60, 100), copy_str("📝"))
        } else if str_eq(t, "File Manager") {
            (rgba(40, 40, 80, 100), copy_str("📁"))
        } else {
            (rgba(50, 50, 50, 100), copy_str("❓"))
        };
        assert(icon_style(w.title) == (color, glyph@));
        emit(out, rect(icon_x, add_w(dock_y, 10), 30, 30, color, 8, 5));
        emit(out, centered(add_w(icon_x, 15), add_w(dock_y, 25), glyph, 18, rgba(100, 100, 100, 100)));
        if win.state != WindowState::Minimized {
            emit(out, rect(add_w(icon_x, 12), add_w(dock_y, 42), 6, 6, rgba(80, 80, 80, 100), 3, 2));
        }
        assert(draw_ops(out@) =~= base + icon_ops(w, icon_x, dock_y));
    }

    /// Everything that a repaint sends to the display service, in order.
    pub fn redraw_payloads(&self) -> (r: Vec<MessagePayload>)
        ensures
            draw_ops(r@) == redraw_ops(self@),
    {
        let ghost m = self@;
        let mut out: Vec<MessagePayload> = Vec::new();
        emit(&mut out, MessagePayload::ClearScreen);
        emit(&mut out, MessagePayload::ClearText);
        emit(&mut out, rect(0, 0, self.screen_w, self.screen_h, rgba(8, 12, 18, 100), 0, 0));
        let ghost pre = draw_ops(out@);
        assert(pre =~= seq![DrawOp::ClearScreen, DrawOp::ClearText, rect_op(0, 0, m.screen_w, m.screen_h, col(8, 12, 18, 100), 0, 0)]);
        let n = self.windows.len();
        let mut i: usize = 0;
        assert(pre + windows_ops(m.windows, m.start_menu_open, 0) =~= pre);
        while i < n
            invariant
                i <= n,
                n == self.windows@.len(),
                m == self@,
                m.windows.len() == n,
                draw_ops(out@) == pre + windows_ops(m.windows, m.start_menu_open, i as int),
            decreases n - i,
        {
            proof { lemma_view_index(self.windows@, i as int); }
            let ghost before = draw_ops(out@);
            if self.windows[i].state != WindowState::Minimized {
                let active = !self.start_menu_open && i == n - 1;
                self.push_window(&mut out, i, active);
                assert(draw_ops(out@) =~= pre + windows_ops(m.windows, m.start_menu_open, i + 1));
            }
            i = i + 1;
        }
        let dock_w = add_w(add_w(add_w(60, mul_w(n as i32, 40)), 10), 70);
        let dock_x = div_t(sub_w(self.screen_w, dock_w), 2);
        let dock_y = sub_w(sub_w(self.screen_h, DOCK_H), 15);
        assert(dock_geometry(n as nat, m.screen_w, m.screen_h) == (dock_x, dock_y, dock_w));
        let ghost after_windows = draw_ops(out@);
        emit(&mut out, rect(dock_x, dock_y, dock_w, DOCK_H, rgba(15, 15, 18, 85), 20, 15));
        emit(&mut out, text(sub_w(add_w(dock_x, dock_w), 60), add_w(dock_y, 26), self.last_time_str.clone(), 16, rgba(90, 90, 90, 100)));
        emit(&mut out, rect(add_w(dock_x, 10), add_w(dock_y, 10), 30, 30, rgba(90, 40, 40, 100), 15, 5));
        emit(&mut out, centered(add_w(dock_x, 25), add_w(dock_y, 25), copy_str("🐒"), 18, rgba(100, 100, 100, 100)));
        let ghost after_dock = draw_ops(out@);
        let mut j: usize = 0;
        assert(after_dock + dock_icons_ops(m.windows, dock_x, dock_y, 0) =~= after_dock);
        while j < n
            invariant
                j <= n,
                n == self.windows@.len(),
                m == self@,
                m.windows.len() == n,
                draw_ops(out@) == after_dock + dock_icons_ops(m.windows, dock_x, dock_y, j as int),
            decreases n - j,
        {
            let icon_x = add_w(add_w(dock_x, 60), mul_w(j as i32, 40));
            self.push_icon(&mut out, j, icon_x, dock_y);
            assert(draw_ops(out@) =~= after_dock + dock_icons_ops(m.windows, dock_x, dock_y, j + 1));
            j = j + 1;
        }
        let ghost after_icons = draw_ops(out@);
        if self.start_menu_open {
            emit(&mut out, rect(dock_x, sub_w(dock_y, 320), 250, 300, rgba(12, 12, 15, 95), 16, 30));
            self.push_menu_entry(&mut out, dock_x, dock_y, 300, rgba(20, 80, 40, 100), copy_str("💻"), copy_str("Terminal"));
            self.push_menu_entry(&mut out, dock_x, dock_y, 250, rgba(80, 60, 20, 100), copy_str("🖩"), copy_str("Calculator"));
            self.push_menu_entry(&mut out, dock_x, dock_y, 200, rgba(40, 40, 80, 100), copy_str("📁"), copy_str("File Manager"));
            self.push_menu_entry(&mut out, dock_x, dock_y, 150, rgba(80, 40, 60, 100), copy_str("📝"), copy_str("Notepad"));
            self.push_menu_entry(&mut out, dock_x, dock_y, 100, rgba(20, 60, 80, 100), copy_str("🖼️"), copy_str("Image Viewer"));
            assert(draw_ops(out@) =~= after_icons + start_menu_ops(dock_x, dock_y));
        }
        assert(draw_ops(out@) =~= redraw_ops(m));
        out
    }

    fn push_menu_entry(&self, out: &mut Vec<MessagePayload>, dock_x: i32, dock_y: i32, top: i32, color: Rgba, glyph: String, label: String)
        requires
            60 <= top <= 300,
        ensures
            draw_ops(final(out)@) == draw_ops(old(out)@) + menu_entry_ops(dock_x, dock_y, top, color, glyph@, label@),
    {
        let ghost base = draw_ops(out@);
        emit(out, rect(add_w(dock_x, 20), sub_w(dock_y, top), 40, 40, color, 8, 5));
        emit(out, centered(add_w(dock_x, 40), sub_w(dock_y, top - 20), glyph, 20, rgba(100, 100, 100, 100)));
        emit(out, text(add_w(dock_x, 70), sub_w(dock_y, top - 10), label, 16, rgba(90, 90, 90, 100)));
        assert(draw_ops(out@) =~= base + menu_entry_ops(dock_x, dock_y, top, color, glyph@, label@));
    }
}

} // verus!
