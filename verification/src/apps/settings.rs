//! The settings: three buttons choosing the desktop background.

use crate::host::{host_view, HostCall, HostView};
use crate::ipc::Rgba;
use crate::services::wm::arith::{add_w, wadd};
use crate::text::copy_str;
use crate::ui::list::{append_cmds, new_button, ListButton};
use crate::ui::panel::{clicked, panel_draw, panel_move, panel_press, panel_release, Panel};
use crate::ui::{draw_views, push_text, rect_v, text_v, Button, ButtonView, DrawCmd, Window};
use vstd::prelude::*;

verus! {

/// What choosing a button writes to the background setting.
pub open spec fn background_of(t: Seq<char>) -> Option<Seq<char>> {
    if t == "NASA APOD"@ {
        Some("NASA_APOD"@)
    } else if t == "Picsum Random"@ {
        Some("https://picsum.photos/1920/1080?blur=2"@)
    } else if t == "MonkeyOS Default"@ {
        Some("DEFAULT"@)
    } else {
        None
    }
}

/// The writes for the buttons clicked, in order.
pub open spec fn writes_of(ts: Seq<Seq<char>>) -> Seq<HostView>
    decreases ts.len(),
{
    if ts.len() == 0 {
        Seq::empty()
    } else {
        writes_of(ts.drop_last()) + match background_of(ts.last()) {
            Some(v) => seq![HostView::WriteFile { path: "/etc/background.txt"@, content: v }],
            None => Seq::empty(),
        }
    }
}

/// The settings window.
pub struct Settings {
    win: Window,
    panel: Panel,
}

pub struct SettingsView {
    pub win: Window,
    pub buttons: Seq<(ButtonView, i32, i32)>,
}

fn background_exec(t: &Vec<char>) -> (r: Option<String>)
    ensures
        match r {
            Some(v) => background_of(t@) == Some(v@),
            None => background_of(t@) is None,
        },
{
    let s = crate::text::string_of(t.as_slice());
    if crate::text::str_eq(s.as_str(), "NASA APOD") {
        Some(copy_str("NASA_APOD"))
    } else if crate::text::str_eq(s.as_str(), "Picsum Random") {
        Some(copy_str("https://picsum.photos/1920/1080?blur=2"))
    } else if crate::text::str_eq(s.as_str(), "MonkeyOS Default") {
        Some(copy_str("DEFAULT"))
    } else {
        None
    }
}

impl Settings {
    pub closed spec fn view(&self) -> SettingsView {
        SettingsView { win: self.win, buttons: self.panel.view() }
    }

    /// The settings in window `win`.
    pub fn new(win: Window) -> (s: Self)
        ensures
            s.view().win == win,
            s.view().buttons == seq![
                (new_button("NASA APOD"@, 260, 30), 20i32, 60i32),
                (new_button("Picsum Random"@, 260, 30), 20i32, 100i32),
                (new_button("MonkeyOS Default"@, 260, 30), 20i32, 140i32),
            ],
    {
        let mut bs: Vec<ListButton> = Vec::new();
        bs.push(ListButton { button: Button::new("NASA APOD", 260, 30), rel_x: 20, rel_y: 60 });
        bs.push(ListButton { button: Button::new("Picsum Random", 260, 30), rel_x: 20, rel_y: 100 });
        bs.push(ListButton { button: Button::new("MonkeyOS Default", 260, 30), rel_x: 20, rel_y: 140 });
        let s = Self { win, panel: Panel { buttons: bs } };
        assert(s.view().buttons =~= seq![
            (new_button("NASA APOD"@, 260, 30), 20i32, 60i32),
            (new_button("Picsum Random"@, 260, 30), 20i32, 100i32),
            (new_button("MonkeyOS Default"@, 260, 30), 20i32, 140i32),
        ]);
        s
    }

    /// Moves the window and draws a frame.
    pub fn tick(&mut self, x: i32, y: i32, w: i32, h: i32) -> (cmds: Vec<DrawCmd>)
        ensures
            final(self).view() == (SettingsView { win: Window { x, y, w, h, ..old(self).view().win }, ..old(self).view() }),
            draw_views(cmds@) == seq![
                rect_v(x, y, w, h, Rgba { r: 10, g: 10, b: 15, a: 100 }),
                text_v(wadd(x, 20), wadd(y, 30), "Choose Background API:"@, 16, Rgba { r: 100, g: 100, b: 100, a: 100 }),
            ] + panel_draw(old(self).view().buttons, old(self).view().buttons.len() as int, x, y),
    {
        self.win.x = x;
        self.win.y = y;
        self.win.w = w;
        self.win.h = h;
        let mut cmds = self.win.draw_background(Rgba { r: 10, g: 10, b: 15, a: 100 });
        push_text(&mut cmds, add_w(x, 20), add_w(y, 30), copy_str("Choose Background API:"), 16, Rgba { r: 100, g: 100, b: 100, a: 100 });
        let p = self.panel.draw(x, y);
        append_cmds(&mut cmds, p);
        cmds
    }

    /// The buttons track the pointer; 1 when a hover changed.
    pub fn handle_mouse_move(&mut self, mx: i32, my: i32) -> (redraw: i32)
        ensures
            final(self).view() == (SettingsView { buttons: panel_move(old(self).view().buttons, mx, my, old(self).view().win.x, old(self).view().win.y), ..old(self).view() }),
            redraw == (if exists|j: int| 0 <= j < old(self).view().buttons.len() && #[trigger] crate::ui::panel::hover_changes(old(self).view().buttons, j, mx, my, old(self).view().win.x, old(self).view().win.y) { 1i32 } else { 0i32 }),
    {
        if self.panel.mouse_move(mx, my, self.win.x, self.win.y) { 1 } else { 0 }
    }

    /// A press presses the button under the pointer; 1 when one was hit.
    pub fn handle_mouse_down(&mut self, mx: i32, my: i32) -> (redraw: i32)
        ensures
            final(self).view() == (SettingsView { buttons: panel_press(old(self).view().buttons, mx, my, old(self).view().win.x, old(self).view().win.y), ..old(self).view() }),
            redraw == (if exists|j: int| 0 <= j < old(self).view().buttons.len() && #[trigger] crate::ui::panel::press_lands(old(self).view().buttons, j, mx, my, old(self).view().win.x, old(self).view().win.y) { 1i32 } else { 0i32 }),
    {
        if self.panel.mouse_down(mx, my, self.win.x, self.win.y) { 1 } else { 0 }
    }

    /// A release: the pressed button under the pointer sets the background.
    pub fn handle_mouse_up(&mut self, mx: i32, my: i32) -> (r: (i32, Vec<HostCall>))
        ensures
            final(self).view() == (SettingsView { buttons: panel_release(old(self).view().buttons), ..old(self).view() }),
            r.1@.map_values(|c: HostCall| host_view(c)) == writes_of(
                clicked(old(self).view().buttons, old(self).view().buttons.len() as int, mx, my, old(self).view().win.x, old(self).view().win.y),
            ),
            r.0 == (if exists|j: int| 0 <= j < old(self).view().buttons.len() && #[trigger] crate::ui::panel::is_pressed(old(self).view().buttons, j) { 1i32 } else { 0i32 }),
    {
        let ghost bs0 = self.panel.view();
        assert(bs0 == old(self).view().buttons);
        let (redraw, clicks) = self.panel.mouse_up(mx, my, self.win.x, self.win.y);
        assert(redraw == exists|j: int| 0 <= j < bs0.len() && #[trigger] crate::ui::panel::is_pressed(bs0, j));
        let ghost ts = clicks@.map_values(|t: Vec<char>| t@);
        let mut writes: Vec<HostCall> = Vec::new();
        let mut i: usize = 0;
        assert(ts.take(0) =~= Seq::<Seq<char>>::empty());
        assert(writes@.map_values(|c: HostCall| host_view(c)) =~= Seq::<HostView>::empty());
        while i < clicks.len()
            invariant
                i <= clicks@.len(),
                ts == clicks@.map_values(|t: Vec<char>| t@),
                writes@.map_values(|c: HostCall| host_view(c)) == writes_of(ts.take(i as int)),
                redraw == exists|j: int| 0 <= j < old(self).view().buttons.len() && #[trigger] crate::ui::panel::is_pressed(old(self).view().buttons, j),
                ts == clicked(old(self).view().buttons, old(self).view().buttons.len() as int, mx, my, old(self).view().win.x, old(self).view().win.y),
                self.view() == (SettingsView { buttons: panel_release(old(self).view().buttons), ..old(self).view() }),
            decreases clicks@.len() - i,
        {
            let ghost before = writes@.map_values(|c: HostCall| host_view(c));
            match background_exec(&clicks[i]) {
                Some(v) => {
                    let c = HostCall::WriteFile { path: copy_str("/etc/background.txt"), content: v };
                    writes.push(c);
                    assert(writes@.map_values(|c: HostCall| host_view(c)) =~= before.push(host_view(c)));
                },
                None => {
                    assert(writes@.map_values(|c: HostCall| host_view(c)) =~= before);
                },
            }
            proof {
                assert(ts.take(i + 1).drop_last() =~= ts.take(i as int));
                assert(ts.take(i + 1).last() == clicks@[i as int]@);
            }
            i = i + 1;
        }
        assert(ts.take(clicks@.len() as int) =~= ts);
        (if redraw { 1 } else { 0 }, writes)
    }
}

} // verus!
