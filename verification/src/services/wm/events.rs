//! How the window manager reacts to each message.

use super::arith::{add_w, div_t, max_i32, mul_w, sub_w, tdiv, wadd, wmul, wsub};
use super::model::{
    opt_string_view, strings_view, ResizeEdge, WinModel, Window, WindowManager, WindowState, WmModel, DOCK_H,
    MIN_SIZE, RESIZE_BORDER, TITLE_H,
};
use crate::host::HostCall;
use crate::ipc::{bus_send_all, AppKind, Message, MessagePayload, ProcessId};
use crate::sys::SyscallEnv;
use vstd::prelude::*;

verus! {

/// The outcome of one message: the new state, the messages sent, the host
/// requests made, and whether the desktop must be repainted.
pub struct WmStep {
    pub model: WmModel,
    pub outs: Seq<Message>,
    pub calls: Seq<HostCall>,
    pub redraw: bool,
}

pub open spec fn quiet(model: WmModel, redraw: bool) -> WmStep {
    WmStep { model, outs: Seq::empty(), calls: Seq::empty(), redraw }
}

/// The first window with id `id`, looking from index `i` on.
pub open spec fn find_window_from(ws: Seq<WinModel>, id: u32, i: int) -> Option<int>
    decreases ws.len() - i,
{
    if i < 0 || i >= ws.len() {
        None
    } else if ws[i].id == id {
        Some(i)
    } else {
        find_window_from(ws, id, i + 1)
    }
}

/// The position of the dock: its left edge, top edge and width.
pub open spec fn dock_geometry(n: nat, screen_w: i32, screen_h: i32) -> (i32, i32, i32) {
    let dock_w = wadd(wadd(wadd(60, wmul(n as i32, 40)), 10), 70);
    (tdiv(wsub(screen_w, dock_w), 2), wsub(wsub(screen_h, DOCK_H), 15), dock_w)
}

/// The number of text lines that fit in a terminal window of height `h`.
pub open spec fn visible_lines(h: i32) -> usize {
    let q = tdiv(wsub(wsub(h, TITLE_H), 20), 20);
    (if q >= 1 { q } else { 1i32 }) as usize
}

/// A window moved to the top of the stack.
pub open spec fn raise(ws: Seq<WinModel>, i: int) -> Seq<WinModel> {
    ws.remove(i).push(ws[i])
}

/// Whether a point lies in the content area (below the title bar) of `w`.
pub open spec fn in_content(w: WinModel, x: i32, y: i32) -> bool {
    let rx = wsub(x, w.x);
    let ry = wsub(y, wadd(w.y, TITLE_H));
    rx >= 0 && ry >= 0 && rx < w.w && ry < wsub(w.h, TITLE_H)
}

// ---------------------------------------------------------------------
// Terminal text, screen size, new windows

pub open spec fn step_terminal_buffer(
    m: WmModel,
    id: u32,
    lines: Seq<Seq<char>>,
    is_pager: bool,
    pager_title: Option<Seq<char>>,
    scroll_y: usize,
) -> WmStep {
    match find_window_from(m.windows, id, 0) {
        Some(i) => {
            let w = m.windows[i];
            let scroll = if !w.is_pager && is_pager {
                0
            } else if !is_pager {
                scroll_y
            } else {
                w.scroll_y
            };
            let w2 = WinModel { lines, scroll_y: scroll, is_pager, pager_title, needs_wrap: true, ..w };
            quiet(WmModel { windows: m.windows.update(i, w2), ..m }, true)
        },
        None => quiet(m, false),
    }
}

pub open spec fn new_window_model(id: u32, x: i32, y: i32, w: i32, h: i32, title: Seq<char>, owner: ProcessId) -> WinModel {
    WinModel {
        id,
        x,
        y,
        w,
        h,
        title,
        owner,
        state: WindowState::Normal,
        restore_rect: None,
        lines: Seq::empty(),
        wrapped: Seq::empty(),
        wrap_width: 0,
        needs_wrap: true,
        is_pager: false,
        pager_title: None,
        scroll_y: 0,
    }
}

// ---------------------------------------------------------------------
// Pointer motion

/// Where a dragged window goes when the pointer reaches `(x, y)`: it snaps
/// to the left or right half, or fills the screen, at the screen edges, and
/// otherwise follows the pointer. The second value says whether it snapped.
pub open spec fn drag_to(m: WmModel, w: WinModel, x: i32, y: i32) -> (WinModel, bool) {
    let full_h = wsub(wsub(m.screen_h, DOCK_H), 20);
    let rr = Some((w.x, w.y, w.w, w.h));
    if x <= 5 {
        (WinModel { restore_rect: rr, state: WindowState::Maximized, x: 0, y: 0, w: tdiv(m.screen_w, 2), h: full_h, ..w }, true)
    } else if x >= wsub(m.screen_w, 5) {
        (WinModel {
            restore_rect: rr,
            state: WindowState::Maximized,
            x: tdiv(m.screen_w, 2),
            y: 0,
            w: tdiv(m.screen_w, 2),
            h: full_h,
            ..w
        }, true)
    } else if y <= 5 {
        (WinModel { restore_rect: rr, state: WindowState::Maximized, x: 0, y: 0, w: m.screen_w, h: full_h, ..w }, true)
    } else {
        (WinModel { x: wsub(x, m.drag_offset_x), y: wsub(y, m.drag_offset_y), ..w }, false)
    }
}

/// A window resized along `edge` by `(dx, dy)`, never below the minimum size.
pub open spec fn resize_by(w: WinModel, edge: ResizeEdge, dx: i32, dy: i32) -> WinModel {
    let nw = if wadd(w.w, dx) >= MIN_SIZE { wadd(w.w, dx) } else { MIN_SIZE };
    let nh = if wadd(w.h, dy) >= MIN_SIZE { wadd(w.h, dy) } else { MIN_SIZE };
    match edge {
        ResizeEdge::Right => WinModel { w: nw, ..w },
        ResizeEdge::Bottom => WinModel { h: nh, ..w },
        ResizeEdge::BottomRight => WinModel { w: nw, h: nh, ..w },
        ResizeEdge::NoEdge => w,
    }
}

pub open spec fn step_mouse_move(m: WmModel, me: ProcessId, x: i32, y: i32) -> WmStep {
    let dx = wsub(x, m.mouse_x);
    let dy = wsub(y, m.mouse_y);
    let m1 = WmModel { mouse_x: x, mouse_y: y, ..m };
    let n = m.windows.len();
    // forwarding to the active window
    let (outs, calls) = if n > 0 {
        let a = m.windows[n - 1];
        if m.mouse_is_down || in_content(a, x, y) {
            if a.owner == 0 {
                (Seq::<Message>::empty(), seq![HostCall::GuiMouseMove { id: a.id, x, y }])
            } else {
                (
                    seq![Message {
                        sender: me,
                        receiver: a.owner,
                        payload: MessagePayload::MouseMove { x: wsub(x, a.x), y: wsub(y, wadd(a.y, TITLE_H)) },
                    }],
                    Seq::<HostCall>::empty(),
                )
            }
        } else {
            (Seq::<Message>::empty(), Seq::<HostCall>::empty())
        }
    } else {
        (Seq::<Message>::empty(), Seq::<HostCall>::empty())
    };
    let (m2, redraw) = match m.drag_window_index {
        Some(idx) => if idx < n {
            let (w2, snapped) = drag_to(m, m.windows[idx as int], x, y);
            (WmModel {
                windows: m.windows.update(idx as int, w2),
                drag_window_index: if snapped { None } else { Some(idx) },
                ..m1
            }, true)
        } else {
            (m1, false)
        },
        None => match m.resize_window_index {
            Some(idx) => if idx < n {
                (WmModel {
                    windows: m.windows.update(idx as int, resize_by(m.windows[idx as int], m.resize_edge, dx, dy)),
                    ..m1
                }, true)
            } else {
                (m1, false)
            },
            None => (m1, false),
        },
    };
    WmStep { model: m2, outs, calls, redraw }
}

// ---------------------------------------------------------------------
// Keys

pub open spec fn step_key(m: WmModel, me: ProcessId, key_code: u32) -> WmStep {
    let n = m.windows.len();
    if n == 0 {
        quiet(m, false)
    } else {
        let a = m.windows[n - 1];
        let forward = WmStep {
            model: m,
            outs: seq![Message { sender: me, receiver: a.owner, payload: MessagePayload::KeyPress { key_code } }],
            calls: Seq::empty(),
            redraw: false,
        };
        if a.owner == 0 {
            WmStep { model: m, outs: Seq::empty(), calls: seq![HostCall::GuiKeyDown { id: a.id, key_code }], redraw: false }
        } else if a.is_pager {
            let max_lines = visible_lines(a.h);
            let limit: usize = if a.wrapped.len() >= max_lines { (a.wrapped.len() - max_lines) as usize } else { 0 };
            if key_code == 1038 || key_code == 107 {
                if a.scroll_y > 0 {
                    let a2 = WinModel { scroll_y: (a.scroll_y - 1) as usize, ..a };
                    quiet(WmModel { windows: m.windows.update(n - 1, a2), ..m }, true)
                } else {
                    quiet(m, false)
                }
            } else if key_code == 1040 || key_code == 106 {
                if a.scroll_y < limit {
                    let a2 = WinModel { scroll_y: (a.scroll_y + 1) as usize, ..a };
                    quiet(WmModel { windows: m.windows.update(n - 1, a2), ..m }, true)
                } else {
                    quiet(m, false)
                }
            } else if key_code == 32 {
                let page: usize = if max_lines >= 1 { (max_lines - 1) as usize } else { 0 };
                let target = vstd::wrapping::usize_specs::wrapping_add(a.scroll_y, page);
                let a2 = WinModel { scroll_y: if target <= limit { target } else { limit }, ..a };
                quiet(WmModel { windows: m.windows.update(n - 1, a2), ..m }, true)
            } else {
                forward
            }
        } else {
            forward
        }
    }
}

// ---------------------------------------------------------------------
// Buttons

/// What a press at `(mx, my)` hits among the windows below index `i`,
/// front to back, skipping minimised ones.
pub struct ClickScan {
    pub idx: Option<int>,
    /// 0 = focus, 1 = close, 2 = maximise/restore, 3 = minimise.
    pub action: int,
    pub resize: Option<ResizeEdge>,
    pub drag: Option<(i32, i32)>,
}

pub open spec fn no_hit() -> ClickScan {
    ClickScan { idx: None, action: 0, resize: None, drag: None }
}

pub open spec fn scan_click(ws: Seq<WinModel>, mx: i32, my: i32, double: bool, i: int) -> ClickScan
    decreases i,
{
    if i <= 0 || i > ws.len() {
        no_hit()
    } else {
        let k = i - 1;
        let win = ws[k];
        let right = wadd(win.x, win.w);
        let bottom = wadd(win.y, win.h);
        let on_right = mx >= wsub(right, RESIZE_BORDER) && mx <= wadd(right, RESIZE_BORDER) && my >= win.y && my <= bottom;
        let on_bottom = my >= wsub(bottom, RESIZE_BORDER) && my <= wadd(bottom, RESIZE_BORDER) && mx >= win.x && mx <= right;
        if win.state == WindowState::Minimized {
            scan_click(ws, mx, my, double, k)
        } else if on_right && on_bottom {
            ClickScan { idx: Some(k), action: 0, resize: Some(ResizeEdge::BottomRight), drag: None }
        } else if on_right {
            ClickScan { idx: Some(k), action: 0, resize: Some(ResizeEdge::Right), drag: None }
        } else if on_bottom {
            ClickScan { idx: Some(k), action: 0, resize: Some(ResizeEdge::Bottom), drag: None }
        } else if mx >= win.x && mx <= right && my >= win.y && my <= bottom {
            if my <= wadd(win.y, TITLE_H) {
                if mx >= wsub(right, 30) {
                    ClickScan { idx: Some(k), action: 1, resize: None, drag: None }
                } else if mx >= wsub(right, 54) {
                    ClickScan { idx: Some(k), action: 2, resize: None, drag: None }
                } else if mx >= wsub(right, 78) {
                    ClickScan { idx: Some(k), action: 3, resize: None, drag: None }
                } else {
                    ClickScan {
                        idx: Some(k),
                        action: if double { 2 } else { 0 },
                        resize: None,
                        drag: Some((wsub(mx, win.x), wsub(my, win.y))),
                    }
                }
            } else {
                ClickScan { idx: Some(k), action: 0, resize: None, drag: None }
            }
        } else {
            scan_click(ws, mx, my, double, k)
        }
    }
}

/// The start menu entry under a point, if any.
pub open spec fn menu_entry(dock_y: i32, my: i32) -> Option<AppKind> {
    if my >= wsub(dock_y, 300) && my <= wsub(dock_y, 260) {
        Some(AppKind::Terminal)
    } else if my >= wsub(dock_y, 250) && my <= wsub(dock_y, 210) {
        Some(AppKind::Calculator)
    } else if my >= wsub(dock_y, 200) && my <= wsub(dock_y, 160) {
        Some(AppKind::FileManager)
    } else if my >= wsub(dock_y, 150) && my <= wsub(dock_y, 110) {
        Some(AppKind::Notepad)
    } else if my >= wsub(dock_y, 100) && my <= wsub(dock_y, 60) {
        Some(AppKind::ImageViewer)
    } else {
        None
    }
}

/// The first dock icon (by window index) under a point, from index `i` on.
pub open spec fn dock_icon_at(n: int, dock_x: i32, dock_y: i32, mx: i32, my: i32, i: int) -> Option<int>
    decreases n - i,
{
    if i < 0 || i >= n {
        None
    } else {
        let icon_x = wadd(wadd(dock_x, 60), wmul(i as i32, 40));
        if mx >= icon_x && mx <= wadd(icon_x, 30) && my >= wadd(dock_y, 10) && my <= wadd(dock_y, 40) {
            Some(i)
        } else {
            dock_icon_at(n, dock_x, dock_y, mx, my, i + 1)
        }
    }
}

/// Applies the result of a window hit.
pub open spec fn apply_click(m: WmModel, me: ProcessId, s: ClickScan) -> WmStep {
    let n = m.windows.len();
    let m1 = WmModel {
        resize_window_index: if s.resize is Some { Some((n - 1) as usize) } else { m.resize_window_index },
        resize_edge: match s.resize { Some(e) => e, None => m.resize_edge },
        drag_window_index: if s.drag is Some { Some((n - 1) as usize) } else { m.drag_window_index },
        drag_offset_x: match s.drag { Some(d) => d.0, None => m.drag_offset_x },
        drag_offset_y: match s.drag { Some(d) => d.1, None => m.drag_offset_y },
        ..m
    };
    match s.idx {
        None => quiet(m1, false),
        Some(i) => {
            let win = m.windows[i];
            if s.action == 1 {
                WmStep {
                    model: WmModel { windows: m.windows.remove(i), ..m1 },
                    outs: seq![Message { sender: me, receiver: win.owner, payload: MessagePayload::WindowClosed { id: win.id } }],
                    calls: Seq::empty(),
                    redraw: false,
                }
            } else if s.action == 2 {
                let w2 = if win.state == WindowState::Maximized {
                    match win.restore_rect {
                        Some(r) => WinModel { state: WindowState::Normal, x: r.0, y: r.1, w: r.2, h: r.3, ..win },
                        None => WinModel { state: WindowState::Normal, ..win },
                    }
                } else {
                    WinModel {
                        restore_rect: Some((win.x, win.y, win.w, win.h)),
                        state: WindowState::Maximized,
                        x: 0,
                        y: 0,
                        w: m.screen_w,
                        h: wsub(wsub(m.screen_h, DOCK_H), 20),
                        ..win
                    }
                };
                quiet(WmModel { windows: raise(m.windows.update(i, w2), i), ..m1 }, false)
            } else if s.action == 3 {
                quiet(WmModel { windows: m.windows.update(i, WinModel { state: WindowState::Minimized, ..win }), ..m1 }, false)
            } else {
                let (outs, calls) = if in_content(win, m.mouse_x, m.mouse_y) {
                    if win.owner == 0 {
                        (Seq::<Message>::empty(), seq![HostCall::GuiMouseDown { id: win.id, x: m.mouse_x, y: m.mouse_y }])
                    } else {
                        (
                            seq![Message { sender: me, receiver: win.owner, payload: MessagePayload::MouseButton { down: true } }],
                            Seq::<HostCall>::empty(),
                        )
                    }
                } else {
                    (Seq::<Message>::empty(), Seq::<HostCall>::empty())
                };
                WmStep { model: WmModel { windows: raise(m.windows, i), ..m1 }, outs, calls, redraw: false }
            }
        },
    }
}

/// A press or release of the mouse button. The window manager never asks
/// for a repaint on a button event; the periodic repaint shows the result.
pub open spec fn step_mouse_button(m: WmModel, me: ProcessId, down: bool, now_ms: u64) -> WmStep {
    let m0 = WmModel { mouse_is_down: down, ..m };
    let n = m.windows.len();
    let mx = m.mouse_x;
    let my = m.mouse_y;
    if !down {
        let m1 = WmModel { drag_window_index: None, resize_window_index: None, resize_edge: ResizeEdge::NoEdge, ..m0 };
        if n == 0 {
            quiet(m1, false)
        } else {
            let a = m.windows[n - 1];
            if a.owner == 0 {
                WmStep { model: m1, outs: Seq::empty(), calls: seq![HostCall::GuiMouseUp { id: a.id, x: mx, y: my }], redraw: false }
            } else {
                WmStep {
                    model: m1,
                    outs: seq![Message { sender: me, receiver: a.owner, payload: MessagePayload::MouseButton { down: false } }],
                    calls: Seq::empty(),
                    redraw: false,
                }
            }
        }
    } else {
        let (dock_x, dock_y, _dock_w) = dock_geometry(n, m.screen_w, m.screen_h);
        if mx >= wadd(dock_x, 10) && mx <= wadd(dock_x, 40) && my >= wadd(dock_y, 10) && my <= wadd(dock_y, 40) {
            quiet(WmModel { start_menu_open: !m.start_menu_open, ..m0 }, false)
        } else if m.start_menu_open && mx >= dock_x && mx <= wadd(dock_x, 250) && my >= wsub(dock_y, 320)
            && my <= wsub(dock_y, 20) {
            let m1 = WmModel { start_menu_open: false, ..m0 };
            match menu_entry(dock_y, my) {
                Some(app) => WmStep {
                    model: m1,
                    outs: seq![Message { sender: me, receiver: 0, payload: MessagePayload::SpawnApp { app } }],
                    calls: Seq::empty(),
                    redraw: false,
                },
                None => quiet(m1, false),
            }
        } else {
            let m1 = if m.start_menu_open && my < wsub(m.screen_h, DOCK_H) {
                WmModel { start_menu_open: false, ..m0 }
            } else {
                m0
            };
            match dock_icon_at(n as int, dock_x, dock_y, mx, my, 0) {
                Some(i) => {
                    let w = m.windows[i];
                    let w2 = WinModel {
                        state: if w.state == WindowState::Minimized { WindowState::Normal } else { WindowState::Minimized },
                        ..w
                    };
                    quiet(WmModel { windows: m.windows.update(i, w2), ..m1 }, false)
                },
                None => {
                    let double = vstd::wrapping::u64_specs::wrapping_sub(now_ms, m.last_click_time) < 300;
                    let s = scan_click(m.windows, mx, my, double, n as int);
                    let m2 = if s.drag is Some { WmModel { last_click_time: now_ms, ..m1 } } else { m1 };
                    apply_click(m2, me, s)
                },
            }
        }
    }
}

/// The outcome of any message.
pub open spec fn wm_step(m: WmModel, me: ProcessId, now_ms: u64, p: MessagePayload) -> WmStep {
    match p {
        MessagePayload::UpdateTerminalBuffer { id, lines, is_pager, pager_title, scroll_y } => step_terminal_buffer(
            m,
            id,
            strings_view(lines@),
            is_pager,
            opt_string_view(pager_title),
            scroll_y,
        ),
        MessagePayload::ScreenSizeChanged { w, h } => quiet(WmModel { screen_w: w, screen_h: h, ..m }, true),
        MessagePayload::CreateWindow { id, x, y, w, h, title, owner } => quiet(
            WmModel { windows: m.windows.push(new_window_model(id, x, y, w, h, title@, owner)), ..m },
            true,
        ),
        MessagePayload::MouseMove { x, y } => step_mouse_move(m, me, x, y),
        MessagePayload::MouseButton { down } => step_mouse_button(m, me, down, now_ms),
        MessagePayload::KeyPress { key_code } => step_key(m, me, key_code),
        MessagePayload::RedrawRequest => quiet(m, true),
        _ => quiet(m, false),
    }
}


// ---------------------------------------------------------------------
// The handlers

pub open spec fn windows_view(ws: Seq<Window>) -> Seq<WinModel> {
    ws.map_values(|w: Window| w@)
}

proof fn lemma_views_update(ws: Seq<Window>, i: int, w: Window)
    requires
        0 <= i < ws.len(),
    ensures
        windows_view(ws.update(i, w)) == windows_view(ws).update(i, w@),
{
    assert(windows_view(ws.update(i, w)) =~= windows_view(ws).update(i, w@));
}

proof fn lemma_views_remove_insert(ws: Seq<Window>, i: int, w: Window)
    requires
        0 <= i < ws.len(),
    ensures
        windows_view(ws.remove(i).insert(i, w)) == windows_view(ws).update(i, w@),
{
    assert(ws.remove(i).insert(i, w) =~= ws.update(i, w));
    lemma_views_update(ws, i, w);
}

proof fn lemma_views_remove(ws: Seq<Window>, i: int)
    requires
        0 <= i < ws.len(),
    ensures
        windows_view(ws.remove(i)) == windows_view(ws).remove(i),
{
    assert(windows_view(ws.remove(i)) =~= windows_view(ws).remove(i));
}

proof fn lemma_views_raise(ws: Seq<Window>, i: int)
    requires
        0 <= i < ws.len(),
    ensures
        windows_view(ws.remove(i).push(ws[i])) == raise(windows_view(ws), i),
{
    assert(windows_view(ws.remove(i).push(ws[i])) =~= raise(windows_view(ws), i));
}

proof fn lemma_views_push(ws: Seq<Window>, w: Window)
    ensures
        windows_view(ws.push(w)) == windows_view(ws).push(w@),
{
    assert(windows_view(ws.push(w)) =~= windows_view(ws).push(w@));
}

/// The exec form of a click scan: hit index, action, resize edge, drag offsets.
pub struct Hit {
    pub idx: Option<usize>,
    pub action: u8,
    pub resize: Option<ResizeEdge>,
    pub drag: Option<(i32, i32)>,
}

impl Hit {
    pub open spec fn view(&self) -> ClickScan {
        ClickScan {
            idx: match self.idx { Some(i) => Some(i as int), None => None },
            action: self.action as int,
            resize: self.resize,
            drag: self.drag,
        }
    }
}

impl WindowManager {
    fn find_window(&self, id: u32) -> (r: Option<usize>)
        ensures
            match r {
                Some(i) => i < self.windows@.len() && find_window_from(self@.windows, id, 0) == Some(i as int),
                None => find_window_from(self@.windows, id, 0) == None::<int>,
            },
    {
        let mut i: usize = 0;
        while i < self.windows.len()
            invariant
                i <= self.windows@.len(),
                find_window_from(self@.windows, id, 0) == find_window_from(self@.windows, id, i as int),
            decreases self.windows@.len() - i,
        {
            if self.windows[i].id == id {
                return Some(i);
            }
            i = i + 1;
        }
        None
    }

    fn on_terminal_buffer(
        &mut self,
        id: u32,
        lines: Vec<String>,
        is_pager: bool,
        pager_title: Option<String>,
        scroll_y: usize,
    ) -> (redraw: bool)
        ensures
            ({
                let st = step_terminal_buffer(old(self)@, id, strings_view(lines@), is_pager, opt_string_view(pager_title), scroll_y);
                final(self)@ == st.model && redraw == st.redraw
            }),
    {
        match self.find_window(id) {
            Some(i) => {
                let ghost ws = self.windows@;
                let mut w = self.windows.remove(i);
                w.terminal_lines = lines;
                if !w.terminal_is_pager && is_pager {
                    w.terminal_scroll_y = 0;
                } else if !is_pager {
                    w.terminal_scroll_y = scroll_y;
                }
                w.terminal_is_pager = is_pager;
                w.terminal_pager_title = pager_title;
                w.terminal_needs_wrap = true;
                self.windows.insert(i, w);
                proof {
                    lemma_views_remove_insert(ws, i as int, w);
                }
                true
            },
            None => false,
        }
    }

    fn on_mouse_move(&mut self, env: &mut SyscallEnv, x: i32, y: i32) -> (redraw: bool)
        requires
            old(env).wf(),
        ensures
            final(self).pid == old(self).pid,
            ({
                let st = step_mouse_move(old(self)@, old(env).pid, x, y);
                &&& final(self)@ == st.model
                &&& redraw == st.redraw
                &&& final(env).ipc@ == bus_send_all(old(env).ipc@, st.outs)
                &&& final(env).host.calls@ == old(env).host.calls@ + st.calls
            }),
            final(env).wf(),
            final(env).pid == old(env).pid,
            final(env).registry == old(env).registry,
            final(env).host.now_ms == old(env).host.now_ms,
            final(env).host.tz_offset_ms == old(env).host.tz_offset_ms,
            final(env).host.next_window_id == old(env).host.next_window_id,
    {
        let ghost m = self@;
        let ghost st = step_mouse_move(m, env.pid, x, y);
        let dx = sub_w(x, self.mouse_x);
        let dy = sub_w(y, self.mouse_y);
        self.mouse_x = x;
        self.mouse_y = y;
        let n = self.windows.len();
        proof { reveal_with_fuel(bus_send_all, 2); }
        if n > 0 {
            let a = &self.windows[n - 1];
            let rx = sub_w(x, a.x);
            let ry = sub_w(y, add_w(a.y, TITLE_H));
            if self.mouse_is_down || (rx >= 0 && ry >= 0 && rx < a.w && ry < sub_w(a.h, TITLE_H)) {
                if a.owner == 0 {
                    env.host_call(HostCall::GuiMouseMove { id: a.id, x, y });
                } else {
                    env.send_msg(a.owner, MessagePayload::MouseMove { x: rx, y: ry });
                }
            }
        }
        assert(env.ipc@ == bus_send_all(old(env).ipc@, st.outs));
        assert(env.host.calls@ =~= old(env).host.calls@ + st.calls);
        let ghost ws = self.windows@;
        match self.drag_window_index {
            Some(idx) => {
                if idx < n {
                    let mut win = self.windows.remove(idx);
                    let mut snapped = false;
                    let full_h = sub_w(sub_w(self.screen_h, DOCK_H), 20);
                    if self.mouse_x <= 5 {
                        win.restore_rect = Some((win.x, win.y, win.w, win.h));
                        win.state = WindowState::Maximized;
                        win.x = 0;
                        win.y = 0;
                        win.w = div_t(self.screen_w, 2);
                        win.h = full_h;
                        snapped = true;
                    } else if self.mouse_x >= sub_w(self.screen_w, 5) {
                        win.restore_rect = Some((win.x, win.y, win.w, win.h));
                        win.state = WindowState::Maximized;
                        win.x = div_t(self.screen_w, 2);
                        win.y = 0;
                        win.w = div_t(self.screen_w, 2);
                        win.h = full_h;
                        snapped = true;
                    } else if self.mouse_y <= 5 {
                        win.restore_rect = Some((win.x, win.y, win.w, win.h));
                        win.state = WindowState::Maximized;
                        win.x = 0;
                        win.y = 0;
                        win.w = self.screen_w;
                        win.h = full_h;
                        snapped = true;
                    }
                    if snapped {
                        self.drag_window_index = None;
                    } else {
                        win.x = sub_w(self.mouse_x, self.drag_offset_x);
                        win.y = sub_w(self.mouse_y, self.drag_offset_y);
                    }
                    self.windows.insert(idx, win);
                    proof {
                        lemma_views_remove_insert(ws, idx as int, win);
                        assert(self@.windows =~= st.model.windows);
                    }
                    true
                } else {
                    false
                }
            },
            None => {
                match self.resize_window_index {
                    Some(idx) => {
                        if idx < n {
                            let mut win = self.windows.remove(idx);
                            match self.resize_edge {
                                ResizeEdge::Right => {
                                    win.w = max_i32(add_w(win.w, dx), MIN_SIZE);
                                },
                                ResizeEdge::Bottom => {
                                    win.h = max_i32(add_w(win.h, dy), MIN_SIZE);
                                },
                                ResizeEdge::BottomRight => {
                                    win.w = max_i32(add_w(win.w, dx), MIN_SIZE);
                                    win.h = max_i32(add_w(win.h, dy), MIN_SIZE);
                                },
                                ResizeEdge::NoEdge => {},
                            }
                            self.windows.insert(idx, win);
                            proof {
                                lemma_views_remove_insert(ws, idx as int, win);
                                assert(self@.windows =~= st.model.windows);
                            }
                            true
                        } else {
                            false
                        }
                    },
                    None => false,
                }
            },
        }
    }

    fn on_key(&mut self, env: &mut SyscallEnv, key_code: u32) -> (redraw: bool)
        requires
            old(env).wf(),
        ensures
            final(self).pid == old(self).pid,
            ({
                let st = step_key(old(self)@, old(env).pid, key_code);
                &&& final(self)@ == st.model
                &&& redraw == st.redraw
                &&& final(env).ipc@ == bus_send_all(old(env).ipc@, st.outs)
                &&& final(env).host.calls@ == old(env).host.calls@ + st.calls
            }),
            final(env).wf(),
            final(env).pid == old(env).pid,
            final(env).registry == old(env).registry,
            final(env).host.now_ms == old(env).host.now_ms,
            final(env).host.tz_offset_ms == old(env).host.tz_offset_ms,
            final(env).host.next_window_id == old(env).host.next_window_id,
    {
        let ghost m = self@;
        let ghost st = step_key(m, env.pid, key_code);
        proof { reveal_with_fuel(bus_send_all, 2); }
        let n = self.windows.len();
        if n == 0 {
            assert(env.host.calls@ =~= old(env).host.calls@ + st.calls);
            return false;
        }
        let owner = self.windows[n - 1].owner;
        if owner == 0 {
            let id = self.windows[n - 1].id;
            env.host_call(HostCall::GuiKeyDown { id, key_code });
            return false;
        }
        if self.windows[n - 1].terminal_is_pager {
            let ghost ws = self.windows@;
            let h = self.windows[n - 1].h;
            let q = div_t(sub_w(sub_w(h, TITLE_H), 20), 20);
            let max_lines: usize = if q >= 1 { q as usize } else { 1 };
            let wl = self.windows[n - 1].terminal_wrapped_lines.len();
            let limit: usize = if wl >= max_lines { wl - max_lines } else { 0 };
            let scroll = self.windows[n - 1].terminal_scroll_y;
            if key_code == 1038 || key_code == 107 {
                if scroll > 0 {
                    let mut w = self.windows.remove(n - 1);
                    w.terminal_scroll_y = scroll - 1;
                    self.windows.insert(n - 1, w);
                    proof { lemma_views_remove_insert(ws, n - 1, w); }
                    assert(env.host.calls@ =~= old(env).host.calls@ + st.calls);
                    return true;
                }
                assert(env.host.calls@ =~= old(env).host.calls@ + st.calls);
                return false;
            } else if key_code == 1040 || key_code == 106 {
                if scroll < limit {
                    let mut w = self.windows.remove(n - 1);
                    w.terminal_scroll_y = scroll + 1;
                    self.windows.insert(n - 1, w);
                    proof { lemma_views_remove_insert(ws, n - 1, w); }
                    assert(env.host.calls@ =~= old(env).host.calls@ + st.calls);
                    return true;
                }
                assert(env.host.calls@ =~= old(env).host.calls@ + st.calls);
                return false;
            } else if key_code == 32 {
                let page: usize = max_lines - 1;
                let target = scroll.wrapping_add(page);
                let mut w = self.windows.remove(n - 1);
                w.terminal_scroll_y = if target <= limit { target } else { limit };
                self.windows.insert(n - 1, w);
                proof { lemma_views_remove_insert(ws, n - 1, w); }
                assert(env.host.calls@ =~= old(env).host.calls@ + st.calls);
                return true;
            }
        }
        env.send_msg(owner, MessagePayload::KeyPress { key_code });
        assert(env.host.calls@ =~= old(env).host.calls@ + st.calls);
        false
    }
}


impl WindowManager {
    fn scan_hit(&self, mx: i32, my: i32, double: bool) -> (h: Hit)
        ensures
            h@ == scan_click(self@.windows, mx, my, double, self@.windows.len() as int),
            match h.idx {
                Some(i) => i < self.windows@.len(),
                None => true,
            },
    {
        let n = self.windows.len();
        let mut k: usize = n;
        while k > 0
            invariant
                k <= n,
                n == self.windows@.len(),
                scan_click(self@.windows, mx, my, double, n as int) == scan_click(self@.windows, mx, my, double, k as int),
            decreases k,
        {
            let i = k - 1;
            let win = &self.windows[i];
            let right = add_w(win.x, win.w);
            let bottom = add_w(win.y, win.h);
            let on_right = mx >= sub_w(right, RESIZE_BORDER) && mx <= add_w(right, RESIZE_BORDER) && my >= win.y && my <= bottom;
            let on_bottom = my >= sub_w(bottom, RESIZE_BORDER) && my <= add_w(bottom, RESIZE_BORDER) && mx >= win.x && mx <= right;
            if win.state == WindowState::Minimized {
                k = i;
            } else if on_right && on_bottom {
                return Hit { idx: Some(i), action: 0, resize: Some(ResizeEdge::BottomRight), drag: None };
            } else if on_right {
                return Hit { idx: Some(i), action: 0, resize: Some(ResizeEdge::Right), drag: None };
            } else if on_bottom {
                return Hit { idx: Some(i), action: 0, resize: Some(ResizeEdge::Bottom), drag: None };
            } else if mx >= win.x && mx <= right && my >= win.y && my <= bottom {
                if my <= add_w(win.y, TITLE_H) {
                    if mx >= sub_w(right, 30) {
                        return Hit { idx: Some(i), action: 1, resize: None, drag: None };
                    } else if mx >= sub_w(right, 54) {
                        return Hit { idx: Some(i), action: 2, resize: None, drag: None };
                    } else if mx >= sub_w(right, 78) {
                        return Hit { idx: Some(i), action: 3, resize: None, drag: None };
                    } else {
                        return Hit {
                            idx: Some(i),
                            action: if double { 2 } else { 0 },
                            resize: None,
                            drag: Some((sub_w(mx, win.x), sub_w(my, win.y))),
                        };
                    }
                } else {
                    return Hit { idx: Some(i), action: 0, resize: None, drag: None };
                }
            } else {
                k = i;
            }
        }
        Hit { idx: None, action: 0, resize: None, drag: None }
    }

    fn dock_icon(&self, dock_x: i32, dock_y: i32, mx: i32, my: i32) -> (r: Option<usize>)
        ensures
            match r {
                Some(i) => i < self.windows@.len() && dock_icon_at(self@.windows.len() as int, dock_x, dock_y, mx, my, 0) == Some(i as int),
                None => dock_icon_at(self@.windows.len() as int, dock_x, dock_y, mx, my, 0) == None::<int>,
            },
    {
        let n = self.windows.len();
        let mut i: usize = 0;
        while i < n
            invariant
                i <= n,
                n == self.windows@.len(),
                dock_icon_at(n as int, dock_x, dock_y, mx, my, 0) == dock_icon_at(n as int, dock_x, dock_y, mx, my, i as int),
            decreases n - i,
        {
            let icon_x = add_w(add_w(dock_x, 60), mul_w(i as i32, 40));
            if mx >= icon_x && mx <= add_w(icon_x, 30) && my >= add_w(dock_y, 10) && my <= add_w(dock_y, 40) {
                return Some(i);
            }
            i = i + 1;
        }
        None
    }

    #[verifier::rlimit(60)]
    fn on_mouse_button(&mut self, env: &mut SyscallEnv, down: bool) -> (redraw: bool)
        requires
            old(env).wf(),
        ensures
            final(self).pid == old(self).pid,
            ({
                let st = step_mouse_button(old(self)@, old(env).pid, down, old(env).host.now_ms);
                &&& final(self)@ == st.model
                &&& redraw == st.redraw
                &&& final(env).ipc@ == bus_send_all(old(env).ipc@, st.outs)
                &&& final(env).host.calls@ == old(env).host.calls@ + st.calls
            }),
            final(env).wf(),
            final(env).pid == old(env).pid,
            final(env).registry == old(env).registry,
            final(env).host.now_ms == old(env).host.now_ms,
            final(env).host.tz_offset_ms == old(env).host.tz_offset_ms,
            final(env).host.next_window_id == old(env).host.next_window_id,
    {
        let ghost m = self@;
        let ghost st = step_mouse_button(m, env.pid, down, env.host.now_ms);
        let ghost ws = self.windows@;
        proof { reveal_with_fuel(bus_send_all, 2); }
        self.mouse_is_down = down;
        let n = self.windows.len();
        let mx = self.mouse_x;
        let my = self.mouse_y;
        if !down {
            self.drag_window_index = None;
            self.resize_window_index = None;
            self.resize_edge = ResizeEdge::NoEdge;
            if n > 0 {
                let owner = self.windows[n - 1].owner;
                if owner == 0 {
                    let id = self.windows[n - 1].id;
                    env.host_call(HostCall::GuiMouseUp { id, x: mx, y: my });
                } else {
                    env.send_msg(owner, MessagePayload::MouseButton { down: false });
                }
            }
            assert(env.host.calls@ =~= old(env).host.calls@ + st.calls);
            return false;
        }
        let dock_w = add_w(add_w(add_w(60, mul_w(n as i32, 40)), 10), 70);
        let dock_x = div_t(sub_w(self.screen_w, dock_w), 2);
        let dock_y = sub_w(sub_w(self.screen_h, DOCK_H), 15);
        if mx >= add_w(dock_x, 10) && mx <= add_w(dock_x, 40) && my >= add_w(dock_y, 10) && my <= add_w(dock_y, 40) {
            self.start_menu_open = !self.start_menu_open;
            assert(env.host.calls@ =~= old(env).host.calls@ + st.calls);
            return false;
        }
        if self.start_menu_open && mx >= dock_x && mx <= add_w(dock_x, 250) && my >= sub_w(dock_y, 320) && my <= sub_w(dock_y, 20) {
            self.start_menu_open = false;
            let app = if my >= sub_w(dock_y, 300) && my <= sub_w(dock_y, 260) {
                Some(AppKind::Terminal)
            } else if my >= sub_w(dock_y, 250) && my <= sub_w(dock_y, 210) {
                Some(AppKind::Calculator)
            } else if my >= sub_w(dock_y, 200) && my <= sub_w(dock_y, 160) {
                Some(AppKind::FileManager)
            } else if my >= sub_w(dock_y, 150) && my <= sub_w(dock_y, 110) {
                Some(AppKind::Notepad)
            } else if my >= sub_w(dock_y, 100) && my <= sub_w(dock_y, 60) {
                Some(AppKind::ImageViewer)
            } else {
                None
            };
            if let Some(app) = app {
                env.send_msg(0, MessagePayload::SpawnApp { app });
            }
            assert(env.host.calls@ =~= old(env).host.calls@ + st.calls);
            return false;
        }
        if self.start_menu_open && my < sub_w(self.screen_h, DOCK_H) {
            self.start_menu_open = false;
        }
        match self.dock_icon(dock_x, dock_y, mx, my) {
            Some(i) => {
                let mut w = self.windows.remove(i);
                w.state = if w.state == WindowState::Minimized { WindowState::Normal } else { WindowState::Minimized };
                self.windows.insert(i, w);
                proof { lemma_views_remove_insert(ws, i as int, w); }
                assert(env.host.calls@ =~= old(env).host.calls@ + st.calls);
                return false;
            },
            None => {},
        }
        let now = env.host.now_ms;
        let double = now.wrapping_sub(self.last_click_time) < 300;
        let hit = self.scan_hit(mx, my, double);
        if let Some(e) = hit.resize {
            self.resize_window_index = Some(n - 1);
            self.resize_edge = e;
        }
        if let Some(d) = hit.drag {
            self.drag_window_index = Some(n - 1);
            self.drag_offset_x = d.0;
            self.drag_offset_y = d.1;
            self.last_click_time = now;
        }
        match hit.idx {
            None => {
                assert(env.host.calls@ =~= old(env).host.calls@ + st.calls);
                false
            },
            Some(i) => {
                if hit.action == 1 {
                    let win = self.windows.remove(i);
                    proof { lemma_views_remove(ws, i as int); }
                    env.send_msg(win.owner, MessagePayload::WindowClosed { id: win.id });
                    assert(env.host.calls@ =~= old(env).host.calls@ + st.calls);
                    false
                } else if hit.action == 2 {
                    let mut win = self.windows.remove(i);
                    if win.state == WindowState::Maximized {
                        win.state = WindowState::Normal;
                        if let Some(r) = win.restore_rect {
                            win.x = r.0;
                            win.y = r.1;
                            win.w = r.2;
                            win.h = r.3;
                        }
                    } else {
                        win.restore_rect = Some((win.x, win.y, win.w, win.h));
                        win.state = WindowState::Maximized;
                        win.x = 0;
                        win.y = 0;
                        win.w = self.screen_w;
                        win.h = sub_w(sub_w(self.screen_h, DOCK_H), 20);
                    }
                    self.windows.push(win);
                    proof {
                        assert(windows_view(ws.remove(i as int).push(win)) =~= raise(windows_view(ws).update(i as int, win@), i as int));
                    }
                    assert(env.host.calls@ =~= old(env).host.calls@ + st.calls);
                    false
                } else if hit.action == 3 {
                    let mut win = self.windows.remove(i);
                    win.state = WindowState::Minimized;
                    self.windows.insert(i, win);
                    proof { lemma_views_remove_insert(ws, i as int, win); }
                    assert(env.host.calls@ =~= old(env).host.calls@ + st.calls);
                    false
                } else {
                    let win = self.windows.remove(i);
                    let rx = sub_w(mx, win.x);
                    let ry = sub_w(my, add_w(win.y, TITLE_H));
                    let inside = rx >= 0 && ry >= 0 && rx < win.w && ry < sub_w(win.h, TITLE_H);
                    let owner = win.owner;
                    let id = win.id;
                    self.windows.push(win);
                    proof { lemma_views_raise(ws, i as int); }
                    if inside {
                        if owner == 0 {
                            env.host_call(HostCall::GuiMouseDown { id, x: mx, y: my });
                        } else {
                            env.send_msg(owner, MessagePayload::MouseButton { down: true });
                        }
                    }
                    assert(env.host.calls@ =~= old(env).host.calls@ + st.calls);
                    false
                }
            },
        }
    }
}


impl WindowManager {
    /// Handles one message; the result says whether to repaint.
    pub fn handle_message(&mut self, env: &mut SyscallEnv, payload: MessagePayload) -> (redraw: bool)
        requires
            old(env).wf(),
        ensures
            final(self).pid == old(self).pid,
            ({
                let st = wm_step(old(self)@, old(env).pid, old(env).host.now_ms, payload);
                &&& final(self)@ == st.model
                &&& redraw == st.redraw
                &&& final(env).ipc@ == bus_send_all(old(env).ipc@, st.outs)
                &&& final(env).host.calls@ == old(env).host.calls@ + st.calls
            }),
            final(env).wf(),
            final(env).pid == old(env).pid,
            final(env).registry == old(env).registry,
            final(env).host.now_ms == old(env).host.now_ms,
            final(env).host.tz_offset_ms == old(env).host.tz_offset_ms,
            final(env).host.next_window_id == old(env).host.next_window_id,
    {
        let ghost m = self@;
        proof { reveal_with_fuel(bus_send_all, 1); }
        match payload {
            MessagePayload::UpdateTerminalBuffer { id, lines, is_pager, pager_title, scroll_y } => {
                let r = self.on_terminal_buffer(id, lines, is_pager, pager_title, scroll_y);
                assert(env.host.calls@ =~= old(env).host.calls@ + Seq::<HostCall>::empty());
                r
            },
            MessagePayload::ScreenSizeChanged { w, h } => {
                self.screen_w = w;
                self.screen_h = h;
                assert(env.host.calls@ =~= old(env).host.calls@ + Seq::<HostCall>::empty());
                true
            },
            MessagePayload::CreateWindow { id, x, y, w, h, title, owner } => {
                let ghost ws = self.windows@;
                let win = Window {
                    id,
                    x,
                    y,
                    w,
                    h,
                    title,
                    owner,
                    state: WindowState::Normal,
                    restore_rect: None,
                    terminal_lines: Vec::new(),
                    terminal_wrapped_lines: Vec::new(),
                    terminal_wrap_width: 0,
                    terminal_needs_wrap: true,
                    terminal_is_pager: false,
                    terminal_pager_title: None,
                    terminal_scroll_y: 0,
                };
                self.windows.push(win);
                proof {
                    lemma_views_push(ws, win);
                    assert(win@.lines =~= Seq::<Seq<char>>::empty());
                    assert(win@.wrapped =~= Seq::<Seq<char>>::empty());
                    assert(win@ == new_window_model(id, x, y, w, h, win.title@, owner));
                }
                assert(env.host.calls@ =~= old(env).host.calls@ + Seq::<HostCall>::empty());
                true
            },
            MessagePayload::MouseMove { x, y } => self.on_mouse_move(env, x, y),
            MessagePayload::MouseButton { down } => self.on_mouse_button(env, down),
            MessagePayload::KeyPress { key_code } => self.on_key(env, key_code),
            MessagePayload::RedrawRequest => {
                assert(env.host.calls@ =~= old(env).host.calls@ + Seq::<HostCall>::empty());
                true
            },
            _ => {
                assert(env.host.calls@ =~= old(env).host.calls@ + Seq::<HostCall>::empty());
                false
            },
        }
    }
}

} // verus!
