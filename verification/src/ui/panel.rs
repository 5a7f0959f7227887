//! A fixed set of buttons placed relative to a window's corner, as the
//! calculator and the settings show them.

use super::list::{append_cmds, list_view, list_views, press, released, track, ListButton};
use super::{button_draw, button_view, draw_views, inside, inside_exec, ButtonView, DrawCmd, DrawView, Widget};
use crate::services::wm::arith::{add_w, wadd};
use crate::text::chars_of;
use vstd::prelude::*;

verus! {

/// Where a button of the panel at `(ox, oy)` is.
pub open spec fn at(b: (ButtonView, i32, i32), ox: i32, oy: i32) -> (i32, i32) {
    (wadd(ox, b.1), wadd(oy, b.2))
}

pub open spec fn panel_draw(bs: Seq<(ButtonView, i32, i32)>, n: int, ox: i32, oy: i32) -> Seq<DrawView>
    decreases n,
{
    if n <= 0 {
        Seq::empty()
    } else {
        let b = bs[n - 1];
        panel_draw(bs, n - 1, ox, oy) + button_draw(b.0, at(b, ox, oy).0, at(b, ox, oy).1)
    }
}

pub open spec fn over(b: (ButtonView, i32, i32), mx: i32, my: i32, ox: i32, oy: i32) -> bool {
    inside(mx, my, at(b, ox, oy).0, at(b, ox, oy).1, b.0.w, b.0.h)
}

/// The buttons pressed and under the pointer among the first `n`: the ones
/// a release clicks, in order.
pub open spec fn clicked(bs: Seq<(ButtonView, i32, i32)>, n: int, mx: i32, my: i32, ox: i32, oy: i32) -> Seq<Seq<char>>
    decreases n,
{
    if n <= 0 {
        Seq::empty()
    } else {
        let b = bs[n - 1];
        clicked(bs, n - 1, mx, my, ox, oy) + if b.0.pressed && over(b, mx, my, ox, oy) { seq![b.0.text] } else { Seq::empty() }
    }
}

pub open spec fn panel_move(bs: Seq<(ButtonView, i32, i32)>, mx: i32, my: i32, ox: i32, oy: i32) -> Seq<(ButtonView, i32, i32)> {
    Seq::new(bs.len(), |j: int| (track(bs[j].0, mx, my, at(bs[j], ox, oy).0, at(bs[j], ox, oy).1), bs[j].1, bs[j].2))
}

pub open spec fn panel_press(bs: Seq<(ButtonView, i32, i32)>, mx: i32, my: i32, ox: i32, oy: i32) -> Seq<(ButtonView, i32, i32)> {
    Seq::new(bs.len(), |j: int| (press(bs[j].0, mx, my, at(bs[j], ox, oy).0, at(bs[j], ox, oy).1), bs[j].1, bs[j].2))
}

pub open spec fn panel_release(bs: Seq<(ButtonView, i32, i32)>) -> Seq<(ButtonView, i32, i32)> {
    Seq::new(bs.len(), |j: int| (released(bs[j].0), bs[j].1, bs[j].2))
}

/// A pointer move changes the hover of button `j`.
pub open spec fn hover_changes(bs: Seq<(ButtonView, i32, i32)>, j: int, mx: i32, my: i32, ox: i32, oy: i32) -> bool {
    over(bs[j], mx, my, ox, oy) != bs[j].0.hovered
}

/// A press lands on button `j`.
pub open spec fn press_lands(bs: Seq<(ButtonView, i32, i32)>, j: int, mx: i32, my: i32, ox: i32, oy: i32) -> bool {
    over(bs[j], mx, my, ox, oy)
}

/// Button `j` is pressed.
pub open spec fn is_pressed(bs: Seq<(ButtonView, i32, i32)>, j: int) -> bool {
    bs[j].0.pressed
}

/// The buttons.
pub struct Panel {
    pub buttons: Vec<ListButton>,
}

impl Panel {
    pub open spec fn view(&self) -> Seq<(ButtonView, i32, i32)> {
        list_views(self.buttons@)
    }

    /// Draws every button.
    pub fn draw(&self, ox: i32, oy: i32) -> (cmds: Vec<DrawCmd>)
        ensures
            draw_views(cmds@) == panel_draw(self.view(), self.view().len() as int, ox, oy),
    {
        let mut cmds: Vec<DrawCmd> = Vec::new();
        let ghost bs = self.view();
        let mut i: usize = 0;
        assert(draw_views(cmds@) =~= Seq::<DrawView>::empty());
        while i < self.buttons.len()
            invariant
                i <= self.buttons@.len(),
                bs == self.view(),
                draw_views(cmds@) == panel_draw(bs, i as int, ox, oy),
            decreases self.buttons@.len() - i,
        {
            let b = &self.buttons[i];
            let c = b.button.draw(add_w(ox, b.rel_x), add_w(oy, b.rel_y));
            append_cmds(&mut cmds, c);
            i = i + 1;
        }
        cmds
    }

    /// Every button tracks the pointer; the result says whether a hover
    /// changed.
    #[verifier::rlimit(40)]
    pub fn mouse_move(&mut self, mx: i32, my: i32, ox: i32, oy: i32) -> (redraw: bool)
        ensures
            final(self).view() == panel_move(old(self).view(), mx, my, ox, oy),
            redraw == exists|j: int| 0 <= j < old(self).view().len() && #[trigger] hover_changes(old(self).view(), j, mx, my, ox, oy),
    {
        let ghost bs = self.view();
        let ghost goal = panel_move(bs, mx, my, ox, oy);
        let mut redraw = false;
        let mut i: usize = 0;
        while i < self.buttons.len()
            invariant
                i <= self.buttons@.len(),
                self.buttons@.len() == bs.len(),
                goal == panel_move(bs, mx, my, ox, oy),
                forall|j: int| 0 <= j < i ==> #[trigger] list_views(self.buttons@)[j] == goal[j],
                forall|j: int| i <= j < self.buttons@.len() ==> #[trigger] list_views(self.buttons@)[j] == bs[j],
                redraw == exists|j: int| 0 <= j < i && #[trigger] hover_changes(bs, j, mx, my, ox, oy),
            decreases self.buttons@.len() - i,
        {
            let ghost prev = list_views(self.buttons@);
            assert(prev[i as int] == bs[i as int]);
            let mut lb = self.buttons.remove(i);
            let r = lb.button.handle_mouse_move(mx, my, add_w(ox, lb.rel_x), add_w(oy, lb.rel_y));
            assert(r == hover_changes(bs, i as int, mx, my, ox, oy));
            redraw = redraw || r;
            self.buttons.insert(i, lb);
            proof {
                assert(self.buttons@[i as int] == lb);
                assert(list_views(self.buttons@)[i as int] == list_view(lb));
                assert forall|j: int| 0 <= j < self.buttons@.len() && j != i implies
                    #[trigger] list_views(self.buttons@)[j] == prev[j] by {}
            }
            i = i + 1;
        }
        assert(list_views(self.buttons@) =~= goal);
        redraw
    }

    /// Buttons under the pointer become pressed; the result says whether
    /// one was hit.
    #[verifier::rlimit(40)]
    pub fn mouse_down(&mut self, mx: i32, my: i32, ox: i32, oy: i32) -> (redraw: bool)
        ensures
            final(self).view() == panel_press(old(self).view(), mx, my, ox, oy),
            redraw == exists|j: int| 0 <= j < old(self).view().len() && #[trigger] press_lands(old(self).view(), j, mx, my, ox, oy),
    {
        let ghost bs = self.view();
        let ghost goal = panel_press(bs, mx, my, ox, oy);
        let mut redraw = false;
        let mut i: usize = 0;
        while i < self.buttons.len()
            invariant
                i <= self.buttons@.len(),
                self.buttons@.len() == bs.len(),
                goal == panel_press(bs, mx, my, ox, oy),
                forall|j: int| 0 <= j < i ==> #[trigger] list_views(self.buttons@)[j] == goal[j],
                forall|j: int| i <= j < self.buttons@.len() ==> #[trigger] list_views(self.buttons@)[j] == bs[j],
                redraw == exists|j: int| 0 <= j < i && #[trigger] press_lands(bs, j, mx, my, ox, oy),
            decreases self.buttons@.len() - i,
        {
            let ghost prev = list_views(self.buttons@);
            assert(prev[i as int] == bs[i as int]);
            let mut lb = self.buttons.remove(i);
            let r = lb.button.handle_mouse_down(mx, my, add_w(ox, lb.rel_x), add_w(oy, lb.rel_y));
            assert(r == press_lands(bs, i as int, mx, my, ox, oy));
            redraw = redraw || r;
            self.buttons.insert(i, lb);
            proof {
                assert(self.buttons@[i as int] == lb);
                assert(list_views(self.buttons@)[i as int] == list_view(lb));
                assert forall|j: int| 0 <= j < self.buttons@.len() && j != i implies
                    #[trigger] list_views(self.buttons@)[j] == prev[j] by {}
            }
            i = i + 1;
        }
        assert(list_views(self.buttons@) =~= goal);
        redraw
    }

    /// A release lets go of every button; those pressed and under the
    /// pointer are clicked, and their texts returned in order.
    #[verifier::rlimit(40)]
    pub fn mouse_up(&mut self, mx: i32, my: i32, ox: i32, oy: i32) -> (r: (bool, Vec<Vec<char>>))
        ensures
            final(self).view() == panel_release(old(self).view()),
            r.0 == exists|j: int| 0 <= j < old(self).view().len() && #[trigger] is_pressed(old(self).view(), j),
            r.1@.map_values(|t: Vec<char>| t@) == clicked(old(self).view(), old(self).view().len() as int, mx, my, ox, oy),
    {
        let ghost bs = self.view();
        let ghost goal = panel_release(bs);
        let mut redraw = false;
        let mut clicks: Vec<Vec<char>> = Vec::new();
        let mut i: usize = 0;
        assert(clicks@.map_values(|t: Vec<char>| t@) =~= clicked(bs, 0, mx, my, ox, oy));
        while i < self.buttons.len()
            invariant
                i <= self.buttons@.len(),
                self.buttons@.len() == bs.len(),
                goal == panel_release(bs),
                forall|j: int| 0 <= j < i ==> #[trigger] list_views(self.buttons@)[j] == goal[j],
                forall|j: int| i <= j < self.buttons@.len() ==> #[trigger] list_views(self.buttons@)[j] == bs[j],
                redraw == exists|j: int| 0 <= j < i && #[trigger] is_pressed(bs, j),
                clicks@.map_values(|t: Vec<char>| t@) == clicked(bs, i as int, mx, my, ox, oy),
            decreases self.buttons@.len() - i,
        {
            let ghost prev = list_views(self.buttons@);
            assert(prev[i as int] == bs[i as int]);
            let mut lb = self.buttons.remove(i);
            let bx = add_w(ox, lb.rel_x);
            let by = add_w(oy, lb.rel_y);
            let ghost before = clicks@.map_values(|t: Vec<char>| t@);
            if lb.button.is_pressed && inside_exec(mx, my, bx, by, lb.button.w, lb.button.h) {
                let t = chars_of(lb.button.text.as_str());
                clicks.push(t);
                assert(clicks@.map_values(|t: Vec<char>| t@) =~= before.push(bs[i as int].0.text));
            } else {
                assert(clicks@.map_values(|t: Vec<char>| t@) =~= before);
            }
            let r = lb.button.handle_mouse_up(mx, my, bx, by);
            assert(r == is_pressed(bs, i as int));
            redraw = redraw || r;
            self.buttons.insert(i, lb);
            proof {
                assert(self.buttons@[i as int] == lb);
                assert(list_views(self.buttons@)[i as int] == list_view(lb));
                assert forall|j: int| 0 <= j < self.buttons@.len() && j != i implies
                    #[trigger] list_views(self.buttons@)[j] == prev[j] by {}
                assert(clicked(bs, i + 1, mx, my, ox, oy) =~= clicked(bs, i as int, mx, my, ox, oy) + if bs[i as int].0.pressed
                    && over(bs[i as int], mx, my, ox, oy) {
                    seq![bs[i as int].0.text]
                } else {
                    Seq::empty()
                });
            }
            i = i + 1;
        }
        assert(list_views(self.buttons@) =~= goal);
        (redraw, clicks)
    }
}

} // verus!
