//! A scrolling list of buttons with an up and a down scroll button, as the
//! file browsers show folders.

use super::{button_draw, button_view, draw_view, draw_views, inside, inside_exec, Button, ButtonView, DrawCmd, DrawView, Widget};
use crate::services::wm::arith::{add_w, sub_w, wadd, wsub};
use crate::text::chars_of;
use vstd::prelude::*;

verus! {

/// A list button with its position relative to the list's origin.
pub struct ListButton {
    pub button: Button,
    pub rel_x: i32,
    pub rel_y: i32,
}

pub open spec fn list_view(b: ListButton) -> (ButtonView, i32, i32) {
    (button_view(b.button), b.rel_x, b.rel_y)
}

pub open spec fn list_views(bs: Seq<ListButton>) -> Seq<(ButtonView, i32, i32)> {
    bs.map_values(|b: ListButton| list_view(b))
}

/// Where the list is on screen: the origin of the item positions, the band
/// in which an item's top edge must lie to be shown, where the scroll
/// buttons are, and how far one click scrolls.
#[derive(Clone, Copy)]
pub struct ListGeom {
    pub ox: i32,
    pub oy: i32,
    pub top: i32,
    pub bottom: i32,
    pub up_x: i32,
    pub up_y: i32,
    pub down_x: i32,
    pub down_y: i32,
    pub step: i32,
}

/// The list as a mathematical value.
pub struct ListView {
    pub items: Seq<(ButtonView, i32, i32)>,
    pub scroll: i32,
    pub up: ButtonView,
    pub down: ButtonView,
}

/// The list's buttons and how far it is scrolled.
pub struct ScrollList {
    pub items: Vec<ListButton>,
    pub scroll: i32,
    pub up: Button,
    pub down: Button,
}

impl ScrollList {
    pub open spec fn view(&self) -> ListView {
        ListView {
            items: list_views(self.items@),
            scroll: self.scroll,
            up: button_view(self.up),
            down: button_view(self.down),
        }
    }
}

/// Where an item appears on screen.
pub open spec fn shown_y(g: ListGeom, rel_y: i32, scroll: i32) -> i32 {
    wsub(wadd(g.oy, rel_y), scroll)
}

/// The item is inside the visible band.
pub open spec fn in_view(g: ListGeom, rel_y: i32, scroll: i32) -> bool {
    shown_y(g, rel_y, scroll) >= g.top && shown_y(g, rel_y, scroll) <= g.bottom
}

/// The pointer is over the visible item `b`.
pub open spec fn over(b: (ButtonView, i32, i32), mx: i32, my: i32, g: ListGeom, scroll: i32) -> bool {
    in_view(g, b.2, scroll) && inside(mx, my, wadd(g.ox, b.1), shown_y(g, b.2, scroll), b.0.w, b.0.h)
}

/// What the visible items among the first `n` draw.
pub open spec fn items_draw(bs: Seq<(ButtonView, i32, i32)>, n: int, g: ListGeom, scroll: i32) -> Seq<DrawView>
    decreases n,
{
    if n <= 0 {
        Seq::empty()
    } else {
        let b = bs[n - 1];
        items_draw(bs, n - 1, g, scroll) + if in_view(g, b.2, scroll) {
            button_draw(b.0, wadd(g.ox, b.1), shown_y(g, b.2, scroll))
        } else {
            Seq::empty()
        }
    }
}

pub open spec fn hovered_to(b: ButtonView, h: bool) -> ButtonView {
    ButtonView { hovered: h, ..b }
}

pub open spec fn released(b: ButtonView) -> ButtonView {
    ButtonView { pressed: false, ..b }
}

/// A scroll button follows the pointer.
pub open spec fn track(b: ButtonView, mx: i32, my: i32, x: i32, y: i32) -> ButtonView {
    hovered_to(b, inside(mx, my, x, y, b.w, b.h))
}

/// A scroll button under a press becomes pressed.
pub open spec fn press(b: ButtonView, mx: i32, my: i32, x: i32, y: i32) -> ButtonView {
    ButtonView { pressed: b.pressed || inside(mx, my, x, y, b.w, b.h), ..b }
}

/// A pointer move: each visible item tracks the pointer, the others lose
/// their hover.
pub open spec fn move_items(bs: Seq<(ButtonView, i32, i32)>, mx: i32, my: i32, g: ListGeom, scroll: i32) -> Seq<(ButtonView, i32, i32)> {
    Seq::new(bs.len(), |j: int| (hovered_to(bs[j].0, over(bs[j], mx, my, g, scroll)), bs[j].1, bs[j].2))
}

/// A press: visible items under the pointer become pressed.
pub open spec fn press_items(bs: Seq<(ButtonView, i32, i32)>, mx: i32, my: i32, g: ListGeom, scroll: i32) -> Seq<(ButtonView, i32, i32)> {
    Seq::new(
        bs.len(),
        |j: int| (ButtonView { pressed: bs[j].0.pressed || over(bs[j], mx, my, g, scroll), ..bs[j].0 }, bs[j].1, bs[j].2),
    )
}

/// The pointer move changes the hover of visible item `j`.
pub open spec fn hover_changes(bs: Seq<(ButtonView, i32, i32)>, j: int, mx: i32, my: i32, g: ListGeom, scroll: i32) -> bool {
    in_view(g, bs[j].2, scroll) && over(bs[j], mx, my, g, scroll) != bs[j].0.hovered
}

/// The press lands on visible item `j`.
pub open spec fn press_lands(bs: Seq<(ButtonView, i32, i32)>, j: int, mx: i32, my: i32, g: ListGeom, scroll: i32) -> bool {
    over(bs[j], mx, my, g, scroll)
}

/// A pointer move over the list: the new list and whether a hover changed.
pub open spec fn list_mouse_move(l: ListView, mx: i32, my: i32, g: ListGeom) -> (ListView, bool) {
    let up = track(l.up, mx, my, g.up_x, g.up_y);
    let down = track(l.down, mx, my, g.down_x, g.down_y);
    let bs = move_items(l.items, mx, my, g, l.scroll);
    (
        ListView { up, down, items: bs, ..l },
        up.hovered != l.up.hovered || down.hovered != l.down.hovered
            || exists|j: int| 0 <= j < bs.len() && #[trigger] hover_changes(l.items, j, mx, my, g, l.scroll),
    )
}

/// A press on the list: the new list and whether anything was hit.
pub open spec fn list_mouse_down(l: ListView, mx: i32, my: i32, g: ListGeom) -> (ListView, bool) {
    let up = press(l.up, mx, my, g.up_x, g.up_y);
    let down = press(l.down, mx, my, g.down_x, g.down_y);
    let bs = press_items(l.items, mx, my, g, l.scroll);
    (
        ListView { up, down, items: bs, ..l },
        inside(mx, my, g.up_x, g.up_y, l.up.w, l.up.h) || inside(mx, my, g.down_x, g.down_y, l.down.w, l.down.h)
            || exists|j: int| 0 <= j < bs.len() && #[trigger] press_lands(l.items, j, mx, my, g, l.scroll),
    )
}

/// Releasing the pointer over this pressed, visible item clicks it.
pub open spec fn releases_on(b: (ButtonView, i32, i32), mx: i32, my: i32, g: ListGeom, scroll: i32) -> bool {
    b.0.pressed && over(b, mx, my, g, scroll)
}

/// The first item among the first `n` that the release clicks.
pub open spec fn first_release(bs: Seq<(ButtonView, i32, i32)>, n: int, mx: i32, my: i32, g: ListGeom, scroll: i32) -> Option<int>
    decreases n,
{
    if n <= 0 {
        None
    } else {
        match first_release(bs, n - 1, mx, my, g, scroll) {
            Some(k) => Some(k),
            None => if releases_on(bs[n - 1], mx, my, g, scroll) {
                Some(n - 1)
            } else {
                None
            },
        }
    }
}

/// Some visible item among the first `n` is pressed.
pub open spec fn any_pressed_in_view(bs: Seq<(ButtonView, i32, i32)>, n: int, g: ListGeom, scroll: i32) -> bool {
    exists|j: int| 0 <= j < n && #[trigger] bs[j].0.pressed && in_view(g, bs[j].2, scroll)
}

/// Every item before `stop` lets go.
pub open spec fn release_items(bs: Seq<(ButtonView, i32, i32)>, stop: int) -> Seq<(ButtonView, i32, i32)> {
    Seq::new(bs.len(), |j: int| if j < stop { (released(bs[j].0), bs[j].1, bs[j].2) } else { bs[j] })
}

/// A release over the pressed up button scrolls up by one step, not above
/// the top.
pub open spec fn scroll_up(l: ListView, mx: i32, my: i32, g: ListGeom) -> i32 {
    if l.up.pressed && inside(mx, my, g.up_x, g.up_y, l.up.w, l.up.h) {
        if l.scroll - g.step > 0 { (l.scroll - g.step) as i32 } else { 0 }
    } else {
        l.scroll
    }
}

/// A release over the pressed down button scrolls down by one step, not
/// past `max`.
pub open spec fn scroll_down(l: ListView, s: i32, mx: i32, my: i32, g: ListGeom, max: int) -> i32 {
    if l.down.pressed && inside(mx, my, g.down_x, g.down_y, l.down.w, l.down.h) {
        if s + g.step < max { (s + g.step) as i32 } else { max as i32 }
    } else {
        s
    }
}

/// A release of the pointer: the new list, whether to redraw, and the item
/// that was clicked, if any.
pub open spec fn list_mouse_up(l: ListView, mx: i32, my: i32, g: ListGeom, max: int) -> (ListView, bool, Option<int>) {
    let s1 = scroll_up(l, mx, my, g);
    let s2 = scroll_down(l, s1, mx, my, g, max);
    let n = l.items.len() as int;
    let hit = first_release(l.items, n, mx, my, g, s2);
    let stop = match hit { Some(k) => k + 1, None => n };
    (
        ListView { scroll: s2, up: released(l.up), down: released(l.down), items: release_items(l.items, stop) },
        match hit {
            Some(k) => true,
            None => l.up.pressed || l.down.pressed || any_pressed_in_view(l.items, n, g, s2),
        },
        hit,
    )
}

/// Once a release point is found among the first `i`, more items do not
/// change it.
proof fn lemma_first_release_stable(bs: Seq<(ButtonView, i32, i32)>, i: int, n: int, mx: i32, my: i32, g: ListGeom, scroll: i32)
    requires
        i <= n,
        first_release(bs, i, mx, my, g, scroll) is Some,
    ensures
        first_release(bs, n, mx, my, g, scroll) == first_release(bs, i, mx, my, g, scroll),
    decreases n - i,
{
    if i < n {
        lemma_first_release_stable(bs, i, n - 1, mx, my, g, scroll);
    }
}

fn shown_y_exec(g: ListGeom, rel_y: i32, scroll: i32) -> (r: i32)
    ensures
        r == shown_y(g, rel_y, scroll),
{
    sub_w(add_w(g.oy, rel_y), scroll)
}

pub fn append_cmds(out: &mut Vec<DrawCmd>, more: Vec<DrawCmd>)
    ensures
        draw_views(final(out)@) == draw_views(old(out)@) + draw_views(more@),
{
    let ghost o = out@;
    let ghost m = more@;
    let mut more = more;
    out.append(&mut more);
    assert(out@ =~= o + m);
    assert(draw_views(out@) =~= draw_views(o) + draw_views(m));
}

impl ScrollList {
    /// Draws the visible items.
    pub fn draw_items(&self, g: ListGeom) -> (cmds: Vec<DrawCmd>)
        ensures
            draw_views(cmds@) == items_draw(self.view().items, self.items@.len() as int, g, self.scroll),
    {
        let mut cmds: Vec<DrawCmd> = Vec::new();
        let ghost bs = list_views(self.items@);
        let mut i: usize = 0;
        assert(draw_views(cmds@) =~= Seq::<DrawView>::empty());
        while i < self.items.len()
            invariant
                i <= self.items@.len(),
                bs == list_views(self.items@),
                draw_views(cmds@) == items_draw(bs, i as int, g, self.scroll),
            decreases self.items@.len() - i,
        {
            let b = &self.items[i];
            let fy = shown_y_exec(g, b.rel_y, self.scroll);
            if fy >= g.top && fy <= g.bottom {
                let c = b.button.draw(add_w(g.ox, b.rel_x), fy);
                append_cmds(&mut cmds, c);
            } else {
                assert(items_draw(bs, i + 1, g, self.scroll) =~= items_draw(bs, i as int, g, self.scroll));
            }
            i = i + 1;
        }
        cmds
    }

    /// The scroll buttons and the visible items track the pointer; the
    /// result says whether a hover changed.
    #[verifier::rlimit(60)]
    pub fn mouse_move(&mut self, mx: i32, my: i32, g: ListGeom) -> (redraw: bool)
        ensures
            (final(self).view(), redraw) == list_mouse_move(old(self).view(), mx, my, g),
    {
        let ghost l = self.view();
        let mut redraw = false;
        let r1 = self.up.handle_mouse_move(mx, my, g.up_x, g.up_y);
        redraw = redraw || r1;
        let r2 = self.down.handle_mouse_move(mx, my, g.down_x, g.down_y);
        redraw = redraw || r2;
        let ghost goal = move_items(l.items, mx, my, g, l.scroll);
        let mut i: usize = 0;
        while i < self.items.len()
            invariant
                i <= self.items@.len(),
                self.items@.len() == l.items.len(),
                self.scroll == l.scroll,
                goal == move_items(l.items, mx, my, g, l.scroll),
                button_view(self.up) == track(l.up, mx, my, g.up_x, g.up_y),
                button_view(self.down) == track(l.down, mx, my, g.down_x, g.down_y),
                r1 == (button_view(self.up).hovered != l.up.hovered),
                r2 == (button_view(self.down).hovered != l.down.hovered),
                forall|j: int| 0 <= j < i ==> #[trigger] list_views(self.items@)[j] == goal[j],
                forall|j: int| i <= j < self.items@.len() ==> #[trigger] list_views(self.items@)[j] == l.items[j],
                redraw == (r1 || r2 || exists|j: int| 0 <= j < i && #[trigger] hover_changes(l.items, j, mx, my, g, l.scroll)),
            decreases self.items@.len() - i,
        {
            let fy = shown_y_exec(g, self.items[i].rel_y, self.scroll);
            let ghost prev = list_views(self.items@);
            let ghost lb0 = self.items@[i as int];
            assert(prev[i as int] == l.items[i as int]);
            assert(list_view(lb0) == l.items[i as int]);
            let mut lb = self.items.remove(i);
            if fy >= g.top && fy <= g.bottom {
                let r = lb.button.handle_mouse_move(mx, my, add_w(g.ox, lb.rel_x), fy);
                assert(r == hover_changes(l.items, i as int, mx, my, g, l.scroll));
                redraw = redraw || r;
            } else {
                lb.button.is_hovered = false;
                assert(!hover_changes(l.items, i as int, mx, my, g, l.scroll));
            }
            self.items.insert(i, lb);
            proof {
                assert(self.items@[i as int] == lb);
                assert(list_views(self.items@)[i as int] == list_view(lb));
                assert forall|j: int| 0 <= j < self.items@.len() && j != i implies
                    #[trigger] list_views(self.items@)[j] == prev[j] by {}
                assert(list_views(self.items@)[i as int] == goal[i as int]);
            }
            i = i + 1;
        }
        proof {
            assert(list_views(self.items@) =~= goal);
        }
        redraw
    }

    /// A press presses the scroll buttons and visible items under the
    /// pointer; the result says whether anything was hit.
    #[verifier::rlimit(60)]
    pub fn mouse_down(&mut self, mx: i32, my: i32, g: ListGeom) -> (redraw: bool)
        ensures
            (final(self).view(), redraw) == list_mouse_down(old(self).view(), mx, my, g),
    {
        let ghost l = self.view();
        let mut redraw = false;
        let r1 = self.up.handle_mouse_down(mx, my, g.up_x, g.up_y);
        redraw = redraw || r1;
        let r2 = self.down.handle_mouse_down(mx, my, g.down_x, g.down_y);
        redraw = redraw || r2;
        let ghost goal = press_items(l.items, mx, my, g, l.scroll);
        let mut i: usize = 0;
        while i < self.items.len()
            invariant
                i <= self.items@.len(),
                self.items@.len() == l.items.len(),
                self.scroll == l.scroll,
                goal == press_items(l.items, mx, my, g, l.scroll),
                button_view(self.up) == press(l.up, mx, my, g.up_x, g.up_y),
                button_view(self.down) == press(l.down, mx, my, g.down_x, g.down_y),
                r1 == inside(mx, my, g.up_x, g.up_y, l.up.w, l.up.h),
                r2 == inside(mx, my, g.down_x, g.down_y, l.down.w, l.down.h),
                forall|j: int| 0 <= j < i ==> #[trigger] list_views(self.items@)[j] == goal[j],
                forall|j: int| i <= j < self.items@.len() ==> #[trigger] list_views(self.items@)[j] == l.items[j],
                redraw == (r1 || r2 || exists|j: int| 0 <= j < i && #[trigger] press_lands(l.items, j, mx, my, g, l.scroll)),
            decreases self.items@.len() - i,
        {
            let fy = shown_y_exec(g, self.items[i].rel_y, self.scroll);
            let ghost prev = list_views(self.items@);
            let ghost lb0 = self.items@[i as int];
            assert(prev[i as int] == l.items[i as int]);
            assert(list_view(lb0) == l.items[i as int]);
            let mut lb = self.items.remove(i);
            if fy >= g.top && fy <= g.bottom {
                let r = lb.button.handle_mouse_down(mx, my, add_w(g.ox, lb.rel_x), fy);
                assert(r == press_lands(l.items, i as int, mx, my, g, l.scroll));
                redraw = redraw || r;
            } else {
                assert(!press_lands(l.items, i as int, mx, my, g, l.scroll));
            }
            self.items.insert(i, lb);
            proof {
                assert(self.items@[i as int] == lb);
                assert(list_views(self.items@)[i as int] == list_view(lb));
                assert forall|j: int| 0 <= j < self.items@.len() && j != i implies
                    #[trigger] list_views(self.items@)[j] == prev[j] by {}
                assert(list_views(self.items@)[i as int] == goal[i as int]);
            }
            i = i + 1;
        }
        proof {
            assert(list_views(self.items@) =~= goal);
        }
        redraw
    }

    /// A release: the scroll buttons scroll (down to at most `max`), then
    /// the first pressed visible item under the pointer is clicked; its
    /// text is returned.
    #[verifier::rlimit(80)]
    pub fn mouse_up(&mut self, mx: i32, my: i32, g: ListGeom, max: i128) -> (r: (bool, Option<Vec<char>>))
        requires
            g.step > 0,
        ensures
            ({
                let (l, redraw, hit) = list_mouse_up(old(self).view(), mx, my, g, max as int);
                &&& final(self).view() == l
                &&& r.0 == redraw
                &&& match hit {
                    Some(k) => r.1 is Some && r.1->0@ == old(self).view().items[k].0.text,
                    None => r.1 is None,
                }
            }),
    {
        let ghost l0 = self.view();
        let mut redraw = false;
        if self.up.is_pressed && inside_exec(mx, my, g.up_x, g.up_y, self.up.w, self.up.h) {
            let up: i64 = self.scroll as i64 - g.step as i64;
            self.scroll = if up > 0 { up as i32 } else { 0 };
            self.up.is_pressed = false;
            redraw = true;
        }
        let r1 = self.up.handle_mouse_up(mx, my, g.up_x, g.up_y);
        redraw = redraw || r1;
        let ghost s1 = self.scroll;
        assert(s1 == scroll_up(l0, mx, my, g));
        if self.down.is_pressed && inside_exec(mx, my, g.down_x, g.down_y, self.down.w, self.down.h) {
            let down: i128 = self.scroll as i128 + g.step as i128;
            self.scroll = if down < max { down as i32 } else { max as i32 };
            self.down.is_pressed = false;
            redraw = true;
        }
        let r2 = self.down.handle_mouse_up(mx, my, g.down_x, g.down_y);
        redraw = redraw || r2;
        let ghost s2 = self.scroll;
        assert(s2 == scroll_down(l0, s1, mx, my, g, max as int));
        assert(redraw == (l0.up.pressed || l0.down.pressed));
        let ghost bs = l0.items;
        let n = self.items.len();
        let mut clicked: Option<Vec<char>> = None;
        let mut i: usize = 0;
        assert(release_items(bs, 0) =~= bs);
        while i < n && clicked.is_none()
            invariant
                i <= n,
                n == bs.len(),
                self.items@.len() == n,
                bs == l0.items,
                self.scroll == s2,
                button_view(self.up) == released(l0.up),
                button_view(self.down) == released(l0.down),
                list_views(self.items@) == release_items(bs, i as int),
                match clicked {
                    Some(t) => i >= 1 && first_release(bs, i as int, mx, my, g, s2) == Some((i - 1) as int)
                        && t@ == bs[i - 1].0.text,
                    None => first_release(bs, i as int, mx, my, g, s2) == None::<int>
                        && redraw == (l0.up.pressed || l0.down.pressed || any_pressed_in_view(bs, i as int, g, s2)),
                },
            decreases n - i,
        {
            let fy = shown_y_exec(g, self.items[i].rel_y, self.scroll);
            let ghost prev = list_views(self.items@);
            assert(prev[i as int] == bs[i as int]);
            let mut lb = self.items.remove(i);
            if fy >= g.top && fy <= g.bottom {
                let bx = add_w(g.ox, lb.rel_x);
                if lb.button.is_pressed && inside_exec(mx, my, bx, fy, lb.button.w, lb.button.h) {
                    clicked = Some(chars_of(lb.button.text.as_str()));
                    lb.button.is_pressed = false;
                    redraw = true;
                    assert(releases_on(bs[i as int], mx, my, g, s2));
                } else {
                    let r = lb.button.handle_mouse_up(mx, my, bx, fy);
                    proof {
                        assert(!releases_on(bs[i as int], mx, my, g, s2));
                        if any_pressed_in_view(bs, i + 1, g, s2) && !any_pressed_in_view(bs, i as int, g, s2) {
                            let j = choose|j: int| 0 <= j < i + 1 && #[trigger] bs[j].0.pressed && in_view(g, bs[j].2, s2);
                            assert(j == i);
                        }
                        if r {
                            assert(bs[i as int].0.pressed && in_view(g, bs[i as int].2, s2));
                        }
                    }
                    redraw = redraw || r;
                }
            } else {
                lb.button.is_pressed = false;
                proof {
                    assert(!releases_on(bs[i as int], mx, my, g, s2));
                    if any_pressed_in_view(bs, i + 1, g, s2) && !any_pressed_in_view(bs, i as int, g, s2) {
                        let j = choose|j: int| 0 <= j < i + 1 && #[trigger] bs[j].0.pressed && in_view(g, bs[j].2, s2);
                        assert(j == i);
                    }
                }
            }
            self.items.insert(i, lb);
            proof {
                assert(self.items@[i as int] == lb);
                assert forall|j: int| 0 <= j < self.items@.len() && j != i implies
                    #[trigger] list_views(self.items@)[j] == prev[j] by {}
                assert(list_views(self.items@) =~= release_items(bs, i + 1));
            }
            i = i + 1;
        }
        proof {
            if clicked is Some {
                lemma_first_release_stable(bs, i as int, n as int, mx, my, g, s2);
            } else {
                assert(i == n);
            }
        }
        (redraw || clicked.is_some(), clicked)
    }
}

/// One entry of a folder listing, as the host reports it.
pub struct DirEntry {
    pub name: String,
    pub is_dir: bool,
}

pub open spec fn entry_views(es: Seq<DirEntry>) -> Seq<(Seq<char>, bool)> {
    es.map_values(|e: DirEntry| (e.name@, e.is_dir))
}

/// The label of the button that leads one folder up.
pub open spec fn up_text() -> Seq<char> {
    "⬆️ .."@
}

pub open spec fn folder_icon() -> char {
    '📁'
}

pub open spec fn file_icon() -> char {
    '📄'
}

pub open spec fn new_button(text: Seq<char>, w: i32, h: i32) -> ButtonView {
    ButtonView { text, w, h, hovered: false, pressed: false }
}

/// The text of the button for a folder entry: its icon, a space, its name.
pub open spec fn entry_text(name: Seq<char>, is_dir: bool) -> Seq<char> {
    seq![if is_dir { folder_icon() } else { file_icon() }, ' '] + name
}

/// The name in an entry button's text, after the icon and the space.
pub open spec fn after_icon(text: Seq<char>) -> Seq<char> {
    if text.len() >= 2 { text.skip(2) } else { Seq::empty() }
}

/// The button's text starts with the arrow of the way up.
pub open spec fn is_up_text(text: Seq<char>) -> bool {
    text.len() >= 2 && text.take(2) == up_text().take(2)
}

/// Buttons `w` by `h` for the entries `es`, added below those already
/// listed: at `rel_x`, the first row at `y0`, one row every `dy`.
pub open spec fn with_entries(
    bs: Seq<(ButtonView, i32, i32)>,
    es: Seq<(Seq<char>, bool)>,
    w: i32,
    h: i32,
    rel_x: i32,
    y0: int,
    dy: int,
) -> Seq<(ButtonView, i32, i32)>
    decreases es.len(),
{
    if es.len() == 0 {
        bs
    } else {
        let prev = with_entries(bs, es.drop_last(), w, h, rel_x, y0, dy);
        prev.push((new_button(entry_text(es.last().0, es.last().1), w, h), rel_x, (y0 + dy * prev.len()) as i32))
    }
}

proof fn lemma_with_entries_len(
    bs: Seq<(ButtonView, i32, i32)>,
    es: Seq<(Seq<char>, bool)>,
    w: i32,
    h: i32,
    rel_x: i32,
    y0: int,
    dy: int,
)
    ensures
        with_entries(bs, es, w, h, rel_x, y0, dy).len() == bs.len() + es.len(),
    decreases es.len(),
{
    if es.len() > 0 {
        lemma_with_entries_len(bs, es.drop_last(), w, h, rel_x, y0, dy);
    }
}

/// The text of the button for a folder entry.
pub fn entry_text_exec(name: &str, is_dir: bool) -> (r: String)
    ensures
        r@ == entry_text(name@, is_dir),
{
    let mut text = String::new();
    text.push(if is_dir { '📁' } else { '📄' });
    text.push(' ');
    text.append(name);
    proof {
        assert(text@ =~= entry_text(name@, is_dir));
    }
    text
}

/// Whether the text starts with the arrow of the way up.
pub fn is_up_text_exec(text: &Vec<char>) -> (r: bool)
    ensures
        r == is_up_text(text@),
{
    proof { reveal_strlit("⬆️ .."); }
    let r = text.len() >= 2 && text[0] == '⬆' && text[1] == '\u{FE0F}';
    proof {
        if r {
            assert(text@.take(2) =~= up_text().take(2));
        }
        if is_up_text(text@) {
            assert(text@[0] == text@.take(2)[0]);
            assert(text@[1] == text@.take(2)[1]);
        }
    }
    r
}

/// `text` without the icon and the space.
pub fn after_icon_exec(text: &Vec<char>) -> (r: Vec<char>)
    ensures
        r@ == after_icon(text@),
{
    let mut r: Vec<char> = Vec::new();
    if text.len() < 2 {
        return r;
    }
    let mut i: usize = 2;
    while i < text.len()
        invariant
            2 <= i <= text@.len(),
            r@ == text@.subrange(2, i as int),
        decreases text@.len() - i,
    {
        r.push(text[i]);
        i = i + 1;
        assert(r@ =~= text@.subrange(2, i as int));
    }
    assert(text@.skip(2) =~= text@.subrange(2, text@.len() as int));
    r
}

impl ScrollList {
    /// Adds a button `w` by `h` for each entry below the buttons already
    /// listed: at `rel_x`, the first row at `y0`, one row every `dy`.
    pub fn append_entries(&mut self, entries: &Vec<DirEntry>, w: i32, h: i32, rel_x: i32, y0: i32, dy: i32)
        requires
            0 <= y0,
            0 < dy,
            y0 + dy * (old(self).items@.len() + entries@.len()) <= i32::MAX,
        ensures
            final(self).view() == (ListView {
                items: with_entries(old(self).view().items, entry_views(entries@), w, h, rel_x, y0 as int, dy as int),
                ..old(self).view()
            }),
    {
        let ghost bs0 = list_views(self.items@);
        let ghost es = entry_views(entries@);
        let mut i: usize = 0;
        assert(es.take(0) =~= Seq::<(Seq<char>, bool)>::empty());
        while i < entries.len()
            invariant
                0 <= i <= entries@.len(),
                es == entry_views(entries@),
                0 <= y0,
                0 < dy,
                y0 + dy * (bs0.len() + entries@.len()) <= i32::MAX,
                list_views(self.items@) == with_entries(bs0, es.take(i as int), w, h, rel_x, y0 as int, dy as int),
                self.items@.len() == bs0.len() + i,
                self.scroll == old(self).scroll,
                self.up == old(self).up,
                self.down == old(self).down,
            decreases entries@.len() - i,
        {
            let e = &entries[i];
            let text = entry_text_exec(e.name.as_str(), e.is_dir);
            assert(dy * self.items@.len() <= dy * (bs0.len() + entries@.len())) by (nonlinear_arith)
                requires
                    0 < dy,
                    self.items@.len() <= bs0.len() + entries@.len(),
            ;
            assert(self.items@.len() <= dy * self.items@.len()) by (nonlinear_arith)
                requires
                    0 < dy,
            ;
            let k: i32 = self.items.len() as i32;
            assert(k == self.items@.len());
            let rel_y: i32 = y0 + dy * k;
            let b = Button::new(text.as_str(), w, h);
            let ghost before = self.items@;
            self.items.push(ListButton { button: b, rel_x, rel_y });
            proof {
                assert(es.take(i + 1).drop_last() =~= es.take(i as int));
                assert(es.take(i + 1).last() == es[i as int]);
                lemma_with_entries_len(bs0, es.take(i as int), w, h, rel_x, y0 as int, dy as int);
                assert(list_views(self.items@) =~= list_views(before).push(list_view(self.items@.last())));
            }
            i = i + 1;
        }
        assert(es.take(entries@.len() as int) =~= es);
    }
}

} // verus!
