//! The piano: one octave of keys, C to C5. Pressing and releasing the
//! pointer over a key plays its note (the host turns the note number into a
//! pitch and plays a short square wave).

use crate::ipc::Rgba;
use crate::services::wm::arith::{add_w, div_t, mul_w, sub_w, tdiv, wadd, wmul, wsub};
use crate::text::chars_of;
use crate::ui::{draw_views, inside, inside_exec, push_text, rect_v, text_v, Button, ButtonView, DrawCmd, DrawView, Window};
use vstd::prelude::*;

verus! {

/// A key: its button, where it sits in the window, and its note number
/// (semitones above C; the A at 9 sounds at 440 Hz).
pub struct PianoKey {
    pub button: Button,
    pub rel_x: i32,
    pub rel_y: i32,
    pub note: i32,
}

pub struct KeyView {
    pub button: ButtonView,
    pub rel_x: i32,
    pub rel_y: i32,
    pub note: i32,
}

pub open spec fn key_view(k: PianoKey) -> KeyView {
    KeyView { button: crate::ui::button_view(k.button), rel_x: k.rel_x, rel_y: k.rel_y, note: k.note }
}

pub open spec fn key_views(ks: Seq<PianoKey>) -> Seq<KeyView> {
    ks.map_values(|k: PianoKey| key_view(k))
}

pub open spec fn key_at(text: Seq<char>, w: i32, h: i32, rel_x: i32, note: i32) -> KeyView {
    KeyView { button: ButtonView { text, w, h, hovered: false, pressed: false }, rel_x, rel_y: 50, note }
}

/// The keys as laid out: the white keys side by side, then the black keys
/// over the gaps between them. Later keys lie on top.
pub open spec fn piano_layout() -> Seq<KeyView> {
    seq![
        key_at("C"@, 60, 160, 10, 0),
        key_at("D"@, 60, 160, 70, 2),
        key_at("E"@, 60, 160, 130, 4),
        key_at("F"@, 60, 160, 190, 5),
        key_at("G"@, 60, 160, 250, 7),
        key_at("A"@, 60, 160, 310, 9),
        key_at("B"@, 60, 160, 370, 11),
        key_at("C5"@, 60, 160, 430, 12),
        key_at("C#"@, 40, 100, 50, 1),
        key_at("D#"@, 40, 100, 110, 3),
        key_at("F#"@, 40, 100, 230, 6),
        key_at("G#"@, 40, 100, 290, 8),
        key_at("A#"@, 40, 100, 350, 10),
    ]
}

/// The pointer is over key `k` of a window at `(x, y)`.
pub open spec fn over_key(k: KeyView, mx: i32, my: i32, x: i32, y: i32) -> bool {
    inside(mx, my, wadd(x, k.rel_x), wadd(y, k.rel_y), k.button.w, k.button.h)
}

/// The topmost of the first `n` keys under the pointer.
pub open spec fn topmost(ks: Seq<KeyView>, n: int, mx: i32, my: i32, x: i32, y: i32) -> Option<int>
    decreases n,
{
    if n <= 0 {
        None
    } else if over_key(ks[n - 1], mx, my, x, y) {
        Some(n - 1)
    } else {
        topmost(ks, n - 1, mx, my, x, y)
    }
}

pub open spec fn is_hov(h: Option<int>, j: int) -> bool {
    h == Some(j)
}

/// After a move only the topmost key under the pointer is hovered.
pub open spec fn hover_all(ks: Seq<KeyView>, h: Option<int>) -> Seq<KeyView> {
    Seq::new(ks.len(), |j: int| KeyView { button: ButtonView { hovered: is_hov(h, j), ..ks[j].button }, ..ks[j] })
}

/// After a press only the topmost key under the pointer is pressed.
pub open spec fn press_all(ks: Seq<KeyView>, h: Option<int>) -> Seq<KeyView> {
    Seq::new(ks.len(), |j: int| KeyView { button: ButtonView { pressed: is_hov(h, j), ..ks[j].button }, ..ks[j] })
}

/// After a release no key is pressed.
pub open spec fn release_all(ks: Seq<KeyView>) -> Seq<KeyView> {
    Seq::new(ks.len(), |j: int| KeyView { button: ButtonView { pressed: false, ..ks[j].button }, ..ks[j] })
}

/// The key's colour: black keys darken, white keys lighten less, as they
/// are hovered and pressed.
pub open spec fn key_color(k: KeyView) -> Rgba {
    let v: u32 = if k.button.text.contains('#') {
        if k.button.pressed { 30 } else if k.button.hovered { 20 } else { 10 }
    } else {
        if k.button.pressed { 80 } else if k.button.hovered { 90 } else { 100 }
    };
    Rgba { r: v, g: v, b: v, a: 100 }
}

/// What key `k` draws in a window at `(x, y)`: its body and its name,
/// centred near the bottom.
pub open spec fn key_draw(k: KeyView, x: i32, y: i32) -> Seq<DrawView> {
    let bx = wadd(x, k.rel_x);
    let by = wadd(y, k.rel_y);
    let t: u32 = if k.button.text.contains('#') { 100 } else { 10 };
    seq![
        DrawView::Rect { x: bx, y: by, w: k.button.w, h: k.button.h, color: key_color(k), radius: 4, shadow_blur: 2 },
        text_v(
            wsub(wadd(bx, tdiv(k.button.w, 2)), wmul(k.button.text.len() as i32, 4)),
            wsub(wadd(by, k.button.h), 20),
            k.button.text,
            14,
            Rgba { r: t, g: t, b: t, a: 100 },
        ),
    ]
}

pub open spec fn keys_draw(ks: Seq<KeyView>, n: int, x: i32, y: i32) -> Seq<DrawView>
    decreases n,
{
    if n <= 0 {
        Seq::empty()
    } else {
        keys_draw(ks, n - 1, x, y) + key_draw(ks[n - 1], x, y)
    }
}

/// The piano.
pub struct Piano {
    win: Window,
    keys: Vec<PianoKey>,
}

pub struct PianoView {
    pub win: Window,
    pub keys: Seq<KeyView>,
}

fn has_hash(v: &Vec<char>) -> (r: bool)
    ensures
        r == v@.contains('#'),
{
    let mut i: usize = 0;
    while i < v.len()
        invariant
            i <= v@.len(),
            forall|j: int| 0 <= j < i ==> v@[j] != '#',
        decreases v@.len() - i,
    {
        if v[i] == '#' {
            return true;
        }
        i = i + 1;
    }
    false
}

fn push_key(keys: &mut Vec<PianoKey>, text: &str, w: i32, h: i32, rel_x: i32, note: i32)
    ensures
        key_views(final(keys)@) == key_views(old(keys)@).push(key_at(text@, w, h, rel_x, note)),
{
    let k = PianoKey { button: Button::new(text, w, h), rel_x, rel_y: 50, note };
    keys.push(k);
    assert(key_views(keys@) =~= key_views(old(keys)@).push(key_at(text@, w, h, rel_x, note)));
}

impl Piano {
    pub closed spec fn view(&self) -> PianoView {
        PianoView { win: self.win, keys: key_views(self.keys@) }
    }

    /// The piano in window `win`, no key hovered or pressed.
    pub fn new(win: Window) -> (p: Self)
        ensures
            p.view() == (PianoView { win, keys: piano_layout() }),
    {
        let mut keys: Vec<PianoKey> = Vec::new();
        assert(key_views(keys@) =~= Seq::<KeyView>::empty());
        push_key(&mut keys, "C", 60, 160, 10, 0);
        push_key(&mut keys, "D", 60, 160, 70, 2);
        push_key(&mut keys, "E", 60, 160, 130, 4);
        push_key(&mut keys, "F", 60, 160, 190, 5);
        push_key(&mut keys, "G", 60, 160, 250, 7);
        push_key(&mut keys, "A", 60, 160, 310, 9);
        push_key(&mut keys, "B", 60, 160, 370, 11);
        push_key(&mut keys, "C5", 60, 160, 430, 12);
        push_key(&mut keys, "C#", 40, 100, 50, 1);
        push_key(&mut keys, "D#", 40, 100, 110, 3);
        push_key(&mut keys, "F#", 40, 100, 230, 6);
        push_key(&mut keys, "G#", 40, 100, 290, 8);
        push_key(&mut keys, "A#", 40, 100, 350, 10);
        let p = Piano { win, keys };
        assert(p.view().keys =~= piano_layout());
        p
    }

    /// Moves the window and draws the keys, in order, over the background.
    pub fn tick(&mut self, x: i32, y: i32, w: i32, h: i32) -> (cmds: Vec<DrawCmd>)
        ensures
            final(self).view() == (PianoView { win: Window { x, y, w, h, ..old(self).view().win }, ..old(self).view() }),
            draw_views(cmds@) == seq![rect_v(x, y, w, h, Rgba { r: 12, g: 12, b: 15, a: 100 })]
                + keys_draw(old(self).view().keys, old(self).view().keys.len() as int, x, y),
    {
        self.win.x = x;
        self.win.y = y;
        self.win.w = w;
        self.win.h = h;
        let mut cmds = self.win.draw_background(Rgba { r: 12, g: 12, b: 15, a: 100 });
        let ghost ks = self.view().keys;
        let ghost head = draw_views(cmds@);
        let mut i: usize = 0;
        while i < self.keys.len()
            invariant
                i <= self.keys@.len(),
                ks == key_views(self.keys@),
                ks == old(self).view().keys,
                draw_views(cmds@) == head + keys_draw(ks, i as int, x, y),
                head == seq![rect_v(x, y, w, h, Rgba { r: 12, g: 12, b: 15, a: 100 })],
            decreases self.keys@.len() - i,
        {
            let k = &self.keys[i];
            let bx = add_w(x, k.rel_x);
            let by = add_w(y, k.rel_y);
            let text = chars_of(k.button.text.as_str());
            let black = has_hash(&text);
            let v: u32 = if black {
                if k.button.is_pressed { 30 } else if k.button.is_hovered { 20 } else { 10 }
            } else {
                if k.button.is_pressed { 80 } else if k.button.is_hovered { 90 } else { 100 }
            };
            let t: u32 = if black { 100 } else { 10 };
            let ghost before = draw_views(cmds@);
            let r = DrawCmd::Rect { x: bx, y: by, w: k.button.w, h: k.button.h, color: Rgba { r: v, g: v, b: v, a: 100 }, radius: 4, shadow_blur: 2 };
            cmds.push(r);
            let n = text.len() as i32;
            let tx = sub_w(add_w(bx, div_t(k.button.w, 2)), mul_w(n, 4));
            let ty = sub_w(add_w(by, k.button.h), 20);
            push_text(&mut cmds, tx, ty, k.button.text.clone(), 14, Rgba { r: t, g: t, b: t, a: 100 });
            proof {
                assert(ks[i as int] == key_view(self.keys@[i as int]));
                assert(draw_views(cmds@) =~= before + key_draw(ks[i as int], x, y));
                assert(keys_draw(ks, i + 1, x, y) == keys_draw(ks, i as int, x, y) + key_draw(ks[i as int], x, y));
                assert(draw_views(cmds@) =~= head + keys_draw(ks, i + 1, x, y));
            }
            i = i + 1;
        }
        cmds
    }

    /// The topmost key under the pointer, for a window at `(x, y)`.
    fn find_hovered_button(&self, mx: i32, my: i32, x: i32, y: i32) -> (r: Option<usize>)
        ensures
            match r {
                Some(j) => topmost(self.view().keys, self.view().keys.len() as int, mx, my, x, y) == Some(j as int),
                None => topmost(self.view().keys, self.view().keys.len() as int, mx, my, x, y) is None,
            },
    {
        let ghost ks = self.view().keys;
        let mut i: usize = self.keys.len();
        while i > 0
            invariant
                i <= self.keys@.len(),
                ks == key_views(self.keys@),
                topmost(ks, ks.len() as int, mx, my, x, y) == topmost(ks, i as int, mx, my, x, y),
            decreases i,
        {
            let k = &self.keys[i - 1];
            assert(ks[i - 1] == key_view(self.keys@[i - 1]));
            if inside_exec(mx, my, add_w(x, k.rel_x), add_w(y, k.rel_y), k.button.w, k.button.h) {
                return Some(i - 1);
            }
            i = i - 1;
        }
        None
    }

    /// The pointer moved: only the topmost key under it is hovered; redraw
    /// when a key's hover changed.
    pub fn handle_mouse_move(&mut self, mx: i32, my: i32, x: i32, y: i32) -> (redraw: bool)
        ensures
            ({
                let ks = old(self).view().keys;
                let h = topmost(ks, ks.len() as int, mx, my, x, y);
                &&& final(self).view() == (PianoView { keys: hover_all(ks, h), ..old(self).view() })
                &&& redraw == exists|j: int| 0 <= j < ks.len() && #[trigger] ks[j].button.hovered != is_hov(h, j)
            }),
    {
        let hov = self.find_hovered_button(mx, my, x, y);
        let ghost ks = old(self).view().keys;
        let ghost h = topmost(ks, ks.len() as int, mx, my, x, y);
        let mut redraw = false;
        let mut i: usize = 0;
        while i < self.keys.len()
            invariant
                i <= self.keys@.len(),
                self.keys@.len() == ks.len(),
                self.win == old(self).view().win,
                match hov {
                    Some(j) => h == Some(j as int),
                    None => h is None,
                },
                forall|j: int| 0 <= j < i ==> #[trigger] key_views(self.keys@)[j] == hover_all(ks, h)[j],
                forall|j: int| i <= j < ks.len() ==> #[trigger] key_views(self.keys@)[j] == ks[j],
                redraw == exists|j: int| 0 <= j < i && #[trigger] ks[j].button.hovered != is_hov(h, j),
            decreases self.keys@.len() - i,
        {
            let this = match hov {
                Some(j) => j == i,
                None => false,
            };
            assert(key_views(self.keys@)[i as int] == ks[i as int]);
            let old_h = self.keys[i].button.is_hovered;
            if this != old_h {
                redraw = true;
            }
            let ghost before = self.keys@;
            let mut k = self.keys.remove(i);
            k.button.is_hovered = this;
            self.keys.insert(i, k);
            assert(self.keys@ =~= before.update(i as int, k));
            assert(key_views(self.keys@) =~= key_views(before).update(i as int, key_view(k)));
            proof {
                assert(key_views(self.keys@)[i as int] == hover_all(ks, h)[i as int]);
                assert(redraw == exists|j: int| 0 <= j < i + 1 && #[trigger] ks[j].button.hovered != is_hov(h, j)) by {
                    if ks[i as int].button.hovered != is_hov(h, i as int) {
                        assert(ks[i as int].button.hovered != is_hov(h, i as int));
                    }
                }
            }
            i = i + 1;
        }
        proof {
            assert(key_views(self.keys@) =~= hover_all(ks, h));
        }
        redraw
    }

    /// A press: only the topmost key under the pointer is pressed; redraw
    /// when a key's state changed.
    pub fn handle_mouse_down(&mut self, mx: i32, my: i32, x: i32, y: i32) -> (redraw: bool)
        ensures
            ({
                let ks = old(self).view().keys;
                let h = topmost(ks, ks.len() as int, mx, my, x, y);
                &&& final(self).view() == (PianoView { keys: press_all(ks, h), ..old(self).view() })
                &&& redraw == exists|j: int| 0 <= j < ks.len() && #[trigger] ks[j].button.pressed != is_hov(h, j)
            }),
    {
        let hov = self.find_hovered_button(mx, my, x, y);
        let ghost ks = old(self).view().keys;
        let ghost h = topmost(ks, ks.len() as int, mx, my, x, y);
        let mut redraw = false;
        let mut i: usize = 0;
        while i < self.keys.len()
            invariant
                i <= self.keys@.len(),
                self.keys@.len() == ks.len(),
                self.win == old(self).view().win,
                match hov {
                    Some(j) => h == Some(j as int),
                    None => h is None,
                },
                forall|j: int| 0 <= j < i ==> #[trigger] key_views(self.keys@)[j] == press_all(ks, h)[j],
                forall|j: int| i <= j < ks.len() ==> #[trigger] key_views(self.keys@)[j] == ks[j],
                redraw == exists|j: int| 0 <= j < i && #[trigger] ks[j].button.pressed != is_hov(h, j),
            decreases self.keys@.len() - i,
        {
            let this = match hov {
                Some(j) => j == i,
                None => false,
            };
            assert(key_views(self.keys@)[i as int] == ks[i as int]);
            let old_p = self.keys[i].button.is_pressed;
            if this != old_p {
                redraw = true;
            }
            let ghost before = self.keys@;
            let mut k = self.keys.remove(i);
            k.button.is_pressed = this;
            self.keys.insert(i, k);
            assert(self.keys@ =~= before.update(i as int, k));
            assert(key_views(self.keys@) =~= key_views(before).update(i as int, key_view(k)));
            proof {
                assert(key_views(self.keys@)[i as int] == press_all(ks, h)[i as int]);
                assert(redraw == exists|j: int| 0 <= j < i + 1 && #[trigger] ks[j].button.pressed != is_hov(h, j)) by {
                    if ks[i as int].button.pressed != is_hov(h, i as int) {
                        assert(ks[i as int].button.pressed != is_hov(h, i as int));
                    }
                }
            }
            i = i + 1;
        }
        proof {
            assert(key_views(self.keys@) =~= press_all(ks, h));
        }
        redraw
    }

    /// A release lets go of every key; a pressed key that is the topmost
    /// under the pointer plays its note, which is returned.
    pub fn handle_mouse_up(&mut self, mx: i32, my: i32, x: i32, y: i32) -> (r: (bool, Option<i32>))
        ensures
            ({
                let ks = old(self).view().keys;
                let h = topmost(ks, ks.len() as int, mx, my, x, y);
                &&& final(self).view() == (PianoView { keys: release_all(ks), ..old(self).view() })
                &&& r.0 == exists|j: int| 0 <= j < ks.len() && #[trigger] ks[j].button.pressed
                &&& r.1 == match h {
                    Some(j) => if ks[j].button.pressed { Some(ks[j].note) } else { None },
                    None => None,
                }
            }),
    {
        let hov = self.find_hovered_button(mx, my, x, y);
        let ghost ks = old(self).view().keys;
        let ghost h = topmost(ks, ks.len() as int, mx, my, x, y);
        proof {
            lemma_topmost_in_range(ks, ks.len() as int, mx, my, x, y);
        }
        let mut redraw = false;
        let mut played: Option<i32> = None;
        let mut i: usize = 0;
        while i < self.keys.len()
            invariant
                i <= self.keys@.len(),
                self.keys@.len() == ks.len(),
                self.win == old(self).view().win,
                match hov {
                    Some(j) => h == Some(j as int) && 0 <= j < ks.len(),
                    None => h is None,
                },
                forall|j: int| 0 <= j < i ==> #[trigger] key_views(self.keys@)[j] == release_all(ks)[j],
                forall|j: int| i <= j < ks.len() ==> #[trigger] key_views(self.keys@)[j] == ks[j],
                redraw == exists|j: int| 0 <= j < i && #[trigger] ks[j].button.pressed,
                played == match hov {
                    Some(j) => if (j as int) < i && ks[j as int].button.pressed { Some(ks[j as int].note) } else { None },
                    None => None,
                },
            decreases self.keys@.len() - i,
        {
            assert(key_views(self.keys@)[i as int] == ks[i as int]);
            if self.keys[i].button.is_pressed {
                redraw = true;
                let this = match hov {
                    Some(j) => j == i,
                    None => false,
                };
                if this {
                    played = Some(self.keys[i].note);
                }
                let ghost before = self.keys@;
                let mut k = self.keys.remove(i);
                k.button.is_pressed = false;
                self.keys.insert(i, k);
                assert(self.keys@ =~= before.update(i as int, k));
            assert(key_views(self.keys@) =~= key_views(before).update(i as int, key_view(k)));
            }
            proof {
                assert(key_views(self.keys@)[i as int] == release_all(ks)[i as int]);
                assert(redraw == exists|j: int| 0 <= j < i + 1 && #[trigger] ks[j].button.pressed) by {
                    if ks[i as int].button.pressed {
                        assert(ks[i as int].button.pressed);
                    }
                }
            }
            i = i + 1;
        }
        proof {
            assert(key_views(self.keys@) =~= release_all(ks));
        }
        (redraw, played)
    }
}

proof fn lemma_topmost_in_range(ks: Seq<KeyView>, n: int, mx: i32, my: i32, x: i32, y: i32)
    ensures
        topmost(ks, n, mx, my, x, y) matches Some(j) ==> 0 <= j < n,
    decreases n,
{
    if n > 0 {
        lemma_topmost_in_range(ks, n - 1, mx, my, x, y);
    }
}

} // verus!
