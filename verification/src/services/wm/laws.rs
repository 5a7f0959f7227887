//! Properties of the window manager that span more than one event.

use super::arith::{wadd, wsub};
use super::events::{apply_click, scan_click, ClickScan, dock_geometry, dock_icon_at, step_mouse_button, step_mouse_move, wm_step};
use super::tick::{rewrap, wm_fold, wm_tick_model};
use super::model::{WinModel, WindowState, WmModel, DOCK_H, RESIZE_BORDER, TITLE_H};
use crate::ipc::{Message, MessagePayload, ProcessId};
use vstd::prelude::*;

verus! {

/// Whether `(mx, my)` lies on the maximise/restore button in the title bar
/// of `win`, clear of its resize borders.
pub open spec fn on_maximise_button(win: WinModel, mx: i32, my: i32) -> bool {
    let right = wadd(win.x, win.w);
    let bottom = wadd(win.y, win.h);
    let on_right = mx >= wsub(right, RESIZE_BORDER) && mx <= wadd(right, RESIZE_BORDER) && my >= win.y && my <= bottom;
    let on_bottom = my >= wsub(bottom, RESIZE_BORDER) && my <= wadd(bottom, RESIZE_BORDER) && mx >= win.x && mx <= right;
    &&& win.state != WindowState::Minimized
    &&& !on_right
    &&& !on_bottom
    &&& win.x <= mx <= right
    &&& win.y <= my <= bottom
    &&& my <= wadd(win.y, TITLE_H)
    &&& wsub(right, 54) <= mx < wsub(right, 30)
}

/// Whether a press at the mouse position passes the start button, the open
/// start menu and the dock icons and so reaches the windows.
pub open spec fn press_reaches_windows(m: WmModel) -> bool {
    let n = m.windows.len();
    let (dock_x, dock_y, _dock_w) = dock_geometry(n, m.screen_w, m.screen_h);
    let mx = m.mouse_x;
    let my = m.mouse_y;
    &&& !(mx >= wadd(dock_x, 10) && mx <= wadd(dock_x, 40) && my >= wadd(dock_y, 10) && my <= wadd(dock_y, 40))
    &&& !(m.start_menu_open && mx >= dock_x && mx <= wadd(dock_x, 250) && my >= wsub(dock_y, 320) && my <= wsub(dock_y, 20))
    &&& dock_icon_at(n as int, dock_x, dock_y, mx, my, 0) is None
}

/// A press on the maximise button of the front window.
pub open spec fn presses_front_maximise(m: WmModel) -> bool {
    &&& m.windows.len() > 0
    &&& press_reaches_windows(m)
    &&& on_maximise_button(m.windows.last(), m.mouse_x, m.mouse_y)
}

/// Maximising the front window and then, after the button is released and
/// the mouse has moved onto the button again, restoring it gives the window
/// back its old position, size and Normal state; the other windows stay as
/// they were. The first press fills the screen above the dock and keeps the
/// old rectangle to restore.
pub proof fn law_maximise_then_restore(m: WmModel, me: ProcessId, t1: u64, t2: u64, t3: u64, mx: i32, my: i32)
    requires
        presses_front_maximise(m),
        m.windows.last().state == WindowState::Normal,
        presses_front_maximise(
            WmModel {
                mouse_x: mx,
                mouse_y: my,
                ..step_mouse_button(step_mouse_button(m, me, true, t1).model, me, false, t2).model
            },
        ),
    ensures
        ({
            let n = m.windows.len();
            let w = m.windows.last();
            let a = step_mouse_button(m, me, true, t1).model;
            let b = WmModel { mouse_x: mx, mouse_y: my, ..step_mouse_button(a, me, false, t2).model };
            let c = step_mouse_button(b, me, true, t3).model;
            &&& a.windows == m.windows.update(
                n - 1,
                WinModel {
                    restore_rect: Some((w.x, w.y, w.w, w.h)),
                    state: WindowState::Maximized,
                    x: 0,
                    y: 0,
                    w: m.screen_w,
                    h: wsub(wsub(m.screen_h, DOCK_H), 20),
                    ..w
                },
            )
            &&& c.windows == m.windows.update(n - 1, WinModel { restore_rect: Some((w.x, w.y, w.w, w.h)), ..w })
            &&& c.windows.last().state == WindowState::Normal
            &&& (c.windows.last().x, c.windows.last().y, c.windows.last().w, c.windows.last().h) == (w.x, w.y, w.w, w.h)
        }),
{
    let n = m.windows.len();
    let w = m.windows.last();
    let a = step_mouse_button(m, me, true, t1).model;
    let w1 = WinModel {
        restore_rect: Some((w.x, w.y, w.w, w.h)),
        state: WindowState::Maximized,
        x: 0,
        y: 0,
        w: m.screen_w,
        h: wsub(wsub(m.screen_h, DOCK_H), 20),
        ..w
    };
    let u1 = m.windows.update(n - 1, w1);
    assert(u1.remove(n - 1).push(u1[n - 1]) =~= u1);
    assert(a.windows =~= u1);
    let r = step_mouse_button(a, me, false, t2).model;
    assert(r.windows == a.windows);
    let b = WmModel { mouse_x: mx, mouse_y: my, ..r };
    let c = step_mouse_button(b, me, true, t3).model;
    let w2 = WinModel { restore_rect: Some((w.x, w.y, w.w, w.h)), ..w };
    let u2 = u1.update(n - 1, w2);
    assert(u2.remove(n - 1).push(u2[n - 1]) =~= u2);
    assert(u2 =~= m.windows.update(n - 1, w2));
    assert(c.windows =~= u2);
}

/// A window's place on the screen: its state, position, size and the
/// rectangle it returns to from Maximized.
pub open spec fn placement(w: WinModel) -> (WindowState, i32, i32, i32, i32, Option<(i32, i32, i32, i32)>) {
    (w.state, w.x, w.y, w.w, w.h, w.restore_rect)
}

proof fn lemma_rewrap_keeps_placement(ws: Seq<WinModel>, i: int)
    requires
        0 <= i < ws.len(),
    ensures
        ws.map_values(|w: WinModel| rewrap(w)).len() == ws.len(),
        placement(ws.map_values(|w: WinModel| rewrap(w))[i]) == placement(ws[i]),
        ws.map_values(|w: WinModel| rewrap(w))[i].id == ws[i].id,
{
}

proof fn lemma_fold_step(m: WmModel, me: ProcessId, t: u64, q: Seq<Message>)
    requires
        q.len() > 0,
    ensures
        wm_fold(m, me, t, q).model == wm_step(wm_fold(m, me, t, q.drop_last()).model, me, t, q.last().payload).model,
{
}

proof fn lemma_fold_one(m: WmModel, me: ProcessId, t: u64, q: Seq<Message>)
    requires
        q.len() == 1,
    ensures
        wm_fold(m, me, t, q).model == wm_step(m, me, t, q[0].payload).model,
{
    lemma_fold_step(m, me, t, q);
    assert(q.drop_last() =~= Seq::<Message>::empty());
    assert(wm_fold(m, me, t, Seq::<Message>::empty()).model == m);
}

proof fn lemma_fold_three(m: WmModel, me: ProcessId, t: u64, q: Seq<Message>)
    requires
        q.len() == 3,
    ensures
        wm_fold(m, me, t, q).model == wm_step(
            wm_step(wm_step(m, me, t, q[0].payload).model, me, t, q[1].payload).model,
            me,
            t,
            q[2].payload,
        ).model,
{
    let q1 = q.take(1);
    let q2 = q.take(2);
    assert(q.drop_last() =~= q2);
    assert(q2.drop_last() =~= q1);
    assert(q1[0] == q[0]);
    assert(q2.last() == q[1]);
    lemma_fold_one(m, me, t, q1);
    lemma_fold_step(m, me, t, q2);
    lemma_fold_step(m, me, t, q);
}

/// The first slice: the front window is maximised.
proof fn lemma_first_slice(m: WmModel, me: ProcessId, t1: u64, tz: i64, q1: Seq<Message>)
    requires
        presses_front_maximise(m),
        m.windows.last().state == WindowState::Normal,
        q1.len() == 1,
        q1[0].payload == (MessagePayload::MouseButton { down: true }),
    ensures
        ({
            let n = m.windows.len();
            let w = m.windows.last();
            let a = wm_tick_model(m, me, t1, tz, q1).0;
            &&& a.windows.len() == n
            &&& a.windows.last().id == w.id
            &&& placement(a.windows.last()) == (
                WindowState::Maximized,
                0i32,
                0i32,
                m.screen_w,
                wsub(wsub(m.screen_h, DOCK_H), 20),
                Some((w.x, w.y, w.w, w.h)),
            )
        }),
{
    let n = m.windows.len();
    let w = m.windows.last();
    let m1 = WmModel { tick_count: vstd::wrapping::u32_specs::wrapping_add(m.tick_count, 1), ..m };
    lemma_fold_one(m1, me, t1, q1);
    let s1 = step_mouse_button(m1, me, true, t1);
    let w1 = WinModel {
        restore_rect: Some((w.x, w.y, w.w, w.h)),
        state: WindowState::Maximized,
        x: 0,
        y: 0,
        w: m.screen_w,
        h: wsub(wsub(m.screen_h, DOCK_H), 20),
        ..w
    };
    let u1 = m.windows.update(n - 1, w1);
    assert(u1.remove(n - 1).push(u1[n - 1]) =~= u1);
    assert(s1.model.windows =~= u1);
    lemma_rewrap_keeps_placement(u1, n - 1);
}

proof fn lemma_step_button(m: WmModel, me: ProcessId, t: u64, p: MessagePayload, down: bool)
    requires
        p == (MessagePayload::MouseButton { down }),
    ensures
        wm_step(m, me, t, p) == step_mouse_button(m, me, down, t),
{
}

proof fn lemma_step_move(m: WmModel, me: ProcessId, t: u64, p: MessagePayload, x: i32, y: i32)
    requires
        p == (MessagePayload::MouseMove { x, y }),
    ensures
        wm_step(m, me, t, p) == step_mouse_move(m, me, x, y),
{
}

/// A release and then a move leave the windows as they were and put the
/// mouse at the new place.
proof fn lemma_release_then_move(a1: WmModel, me: ProcessId, t: u64, mx: i32, my: i32)
    ensures
        ({
            let mv = step_mouse_move(step_mouse_button(a1, me, false, t).model, me, mx, my).model;
            &&& mv.windows == a1.windows
            &&& mv.mouse_x == mx
            &&& mv.mouse_y == my
            &&& mv.screen_w == a1.screen_w
            &&& mv.screen_h == a1.screen_h
            &&& mv.start_menu_open == a1.start_menu_open
        }),
{
}

/// A press on the maximise button of a maximised front window restores it.
proof fn lemma_restore_press(mv: WmModel, me: ProcessId, t: u64)
    requires
        presses_front_maximise(mv),
        mv.windows.last().state == WindowState::Maximized,
        mv.windows.last().restore_rect is Some,
    ensures
        ({
            let n = mv.windows.len();
            let fw = mv.windows.last();
            let r = fw.restore_rect->0;
            step_mouse_button(mv, me, true, t).model.windows == mv.windows.update(
                n - 1,
                WinModel { state: WindowState::Normal, x: r.0, y: r.1, w: r.2, h: r.3, ..fw },
            )
        }),
{
    let n = mv.windows.len();
    let fw = mv.windows.last();
    let rr = fw.restore_rect->0;
    let u2 = mv.windows.update(n - 1, WinModel { state: WindowState::Normal, x: rr.0, y: rr.1, w: rr.2, h: rr.3, ..fw });
    assert(u2.remove(n - 1).push(u2[n - 1]) =~= u2);
    assert(step_mouse_button(mv, me, true, t).model.windows =~= u2);
}

/// The second slice: the maximised front window is restored.
proof fn lemma_second_slice(a: WmModel, me: ProcessId, t2: u64, tz: i64, q2: Seq<Message>, mx: i32, my: i32)
    requires
        a.windows.len() > 0,
        a.windows.last().state == WindowState::Maximized,
        a.windows.last().restore_rect is Some,
        q2.len() == 3,
        q2[0].payload == (MessagePayload::MouseButton { down: false }),
        q2[1].payload == (MessagePayload::MouseMove { x: mx, y: my }),
        q2[2].payload == (MessagePayload::MouseButton { down: true }),
        press_reaches_windows(WmModel { mouse_x: mx, mouse_y: my, ..a }),
        on_maximise_button(a.windows.last(), mx, my),
    ensures
        ({
            let n = a.windows.len();
            let fw = a.windows.last();
            let r = fw.restore_rect->0;
            let b = wm_tick_model(a, me, t2, tz, q2).0;
            &&& b.windows.len() == n
            &&& b.windows.last().id == fw.id
            &&& placement(b.windows.last()) == (WindowState::Normal, r.0, r.1, r.2, r.3, fw.restore_rect)
        }),
{
    let n = a.windows.len();
    let fw = a.windows.last();
    let rr = fw.restore_rect->0;
    let a1 = WmModel { tick_count: vstd::wrapping::u32_specs::wrapping_add(a.tick_count, 1), ..a };
    lemma_fold_three(a1, me, t2, q2);
    lemma_step_button(a1, me, t2, q2[0].payload, false);
    let r = step_mouse_button(a1, me, false, t2).model;
    lemma_step_move(r, me, t2, q2[1].payload, mx, my);
    let mv = step_mouse_move(r, me, mx, my).model;
    lemma_release_then_move(a1, me, t2, mx, my);
    assert(press_reaches_windows(mv));
    lemma_step_button(mv, me, t2, q2[2].payload, true);
    lemma_restore_press(mv, me, t2);
    let u2 = a.windows.update(n - 1, WinModel { state: WindowState::Normal, x: rr.0, y: rr.1, w: rr.2, h: rr.3, ..fw });
    assert(wm_fold(a1, me, t2, q2).model.windows == u2);
    lemma_rewrap_keeps_placement(u2, n - 1);
}

/// Over two time slices of the window manager: the first handles a press
/// on the maximise button of the Normal front window; the second a
/// release, a move of the mouse onto that button of the now maximised
/// window, and a press. After the first the window is the front window,
/// Maximized, filling the screen above the dock and keeping its old
/// rectangle to restore; after the second it is the front window again,
/// Normal, at its old position and size.
pub proof fn law_maximise_then_restore_ticks(
    m: WmModel,
    me: ProcessId,
    t1: u64,
    t2: u64,
    tz: i64,
    q1: Seq<Message>,
    q2: Seq<Message>,
    mx: i32,
    my: i32,
)
    requires
        presses_front_maximise(m),
        m.windows.last().state == WindowState::Normal,
        q1.len() == 1,
        q1[0].payload == (MessagePayload::MouseButton { down: true }),
        q2.len() == 3,
        q2[0].payload == (MessagePayload::MouseButton { down: false }),
        q2[1].payload == (MessagePayload::MouseMove { x: mx, y: my }),
        q2[2].payload == (MessagePayload::MouseButton { down: true }),
        press_reaches_windows(WmModel { mouse_x: mx, mouse_y: my, ..wm_tick_model(m, me, t1, tz, q1).0 }),
        on_maximise_button(wm_tick_model(m, me, t1, tz, q1).0.windows.last(), mx, my),
    ensures
        ({
            let n = m.windows.len();
            let w = m.windows.last();
            let a = wm_tick_model(m, me, t1, tz, q1).0;
            let b = wm_tick_model(a, me, t2, tz, q2).0;
            &&& a.windows.len() == n
            &&& a.windows.last().id == w.id
            &&& placement(a.windows.last()) == (
                WindowState::Maximized,
                0i32,
                0i32,
                m.screen_w,
                wsub(wsub(m.screen_h, DOCK_H), 20),
                Some((w.x, w.y, w.w, w.h)),
            )
            &&& b.windows.len() == n
            &&& b.windows.last().id == w.id
            &&& placement(b.windows.last()) == (WindowState::Normal, w.x, w.y, w.w, w.h, Some((w.x, w.y, w.w, w.h)))
        }),
{
    lemma_first_slice(m, me, t1, tz, q1);
    lemma_second_slice(wm_tick_model(m, me, t1, tz, q1).0, me, t2, tz, q2, mx, my);
}

/// While a window is being dragged, a move of the mouse to `(x, y)` away
/// from the screen's left, right and top edges (where the window would
/// snap) keeps the point at which the window was grabbed under the
/// pointer: the window's corner lands at the pointer minus the grab
/// offset, its size and state stay, and the drag goes on.
pub proof fn law_drag_follows_pointer(m: WmModel, me: ProcessId, x: i32, y: i32)
    requires
        m.drag_window_index is Some,
        (m.drag_window_index->0 as int) < m.windows.len(),
        5 < x,
        x < m.screen_w as int - 5,
        5 < y,
        i32::MIN <= x as int - m.drag_offset_x as int <= i32::MAX,
        i32::MIN <= y as int - m.drag_offset_y as int <= i32::MAX,
    ensures
        ({
            let i = m.drag_window_index->0 as int;
            let r = step_mouse_move(m, me, x, y).model;
            &&& r.windows.len() == m.windows.len()
            &&& r.windows[i].x + m.drag_offset_x == x
            &&& r.windows[i].y + m.drag_offset_y == y
            &&& r.windows[i].w == m.windows[i].w
            &&& r.windows[i].h == m.windows[i].h
            &&& r.windows[i].state == m.windows[i].state
            &&& r.windows[i].id == m.windows[i].id
            &&& r.drag_window_index == m.drag_window_index
            &&& r.mouse_x == x
            &&& r.mouse_y == y
            &&& forall|j: int| 0 <= j < m.windows.len() && j != i ==> r.windows[j] == m.windows[j]
        }),
{
    assert(m.screen_w as int - 5 == wsub(m.screen_w, 5));
}

/// Whether `(mx, my)` lies on the title bar of `win`, left of its three
/// buttons and clear of its resize borders.
pub open spec fn on_title_bar(win: WinModel, mx: i32, my: i32) -> bool {
    let right = wadd(win.x, win.w);
    let bottom = wadd(win.y, win.h);
    let on_right = mx >= wsub(right, RESIZE_BORDER) && mx <= wadd(right, RESIZE_BORDER) && my >= win.y && my <= bottom;
    let on_bottom = my >= wsub(bottom, RESIZE_BORDER) && my <= wadd(bottom, RESIZE_BORDER) && mx >= win.x && mx <= right;
    &&& win.state != WindowState::Minimized
    &&& !on_right
    &&& !on_bottom
    &&& win.x <= mx <= right
    &&& win.y <= my <= bottom
    &&& my <= wadd(win.y, TITLE_H)
    &&& mx < wsub(right, 30)
    &&& mx < wsub(right, 54)
    &&& mx < wsub(right, 78)
}

/// A single press (not the second of a double click) on the title bar of
/// the front window grabs it: the window stays in front, unchanged, and
/// the drag remembers how far from the window's corner it was grabbed, so
/// that the corner plus that offset is the pointer.
pub proof fn law_grab_title_bar(m: WmModel, me: ProcessId, now: u64)
    requires
        m.windows.len() > 0,
        press_reaches_windows(m),
        on_title_bar(m.windows.last(), m.mouse_x, m.mouse_y),
        vstd::wrapping::u64_specs::wrapping_sub(now, m.last_click_time) >= 300,
        i32::MIN <= m.mouse_x as int - m.windows.last().x as int <= i32::MAX,
        i32::MIN <= m.mouse_y as int - m.windows.last().y as int <= i32::MAX,
    ensures
        ({
            let n = m.windows.len();
            let r = step_mouse_button(m, me, true, now).model;
            &&& r.windows == m.windows
            &&& r.drag_window_index == Some((n - 1) as usize)
            &&& m.windows.last().x + r.drag_offset_x == m.mouse_x
            &&& m.windows.last().y + r.drag_offset_y == m.mouse_y
            &&& r.last_click_time == now
        }),
{
    let n = m.windows.len();
    let w = m.windows.last();
    let hit = ClickScan {
        idx: Some(n - 1),
        action: 0,
        resize: None,
        drag: Some((wsub(m.mouse_x, w.x), wsub(m.mouse_y, w.y))),
    };
    assert(scan_click(m.windows, m.mouse_x, m.mouse_y, false, n as int) == hit);
    let m1 = WmModel { mouse_is_down: true, last_click_time: now, ..m };
    assert(m.windows.remove(n - 1).push(m.windows[n - 1]) =~= m.windows);
    assert(apply_click(m1, me, hit).model.windows == m.windows);
}

} // verus!
