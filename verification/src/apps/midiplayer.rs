//! The MIDI player: it opens a Standard MIDI File, through the file picker
//! or from its launch argument, and plays the notes of all its tracks at
//! once, counting 2 ms per tick. The host draws the level meter between the
//! two halves of each frame and turns each scheduled note into a tone.

use crate::apps::notepad::picker_opened;
use crate::ipc::Rgba;
use crate::services::wm::arith::{add_w, wadd};
use crate::text::copy_str;
use crate::ui::list::{append_cmds, entry_views, list_mouse_down, list_mouse_move, released, with_entries, DirEntry, ListView};
use crate::ui::picker::{list_fits, picker_draw, picker_geom, picker_initial, picker_mouse_up, FilePicker, PickerView};
use crate::ui::{
    button_draw, button_view, draw_views, inside, inside_exec, push_rect, push_text, rect_v, text_v, Button, ButtonView,
    DrawCmd, DrawView, Widget, Window,
};
use vstd::prelude::*;

verus! {

/// One event of a track as the player reads it: the ticks since the
/// previous event, and the key and velocity of a Note On message.
pub type MidiEvent = (u32, Option<(u8, u8)>);

/// What `midly` reads from a file: its tracks, each a list of events, or
/// nothing when the bytes are not a valid Standard MIDI File.
pub uninterp spec fn parsed_midi(data: Seq<u8>) -> Option<Seq<Seq<(u32, Option<(u8, u8)>)>>>;

pub open spec fn tracks_view(r: Option<Vec<Vec<MidiEvent>>>) -> Option<Seq<Seq<MidiEvent>>> {
    match r {
        Some(ts) => Some(ts@.map_values(|t: Vec<MidiEvent>| t@)),
        None => None,
    }
}

/// Reads the tracks of a MIDI file with `midly::Smf::parse`, keeping of
/// each event its delta time and, for a Note On message, its key and
/// velocity.
#[verifier::external_body]
fn parse_midi_events(data: &[u8]) -> (r: Option<Vec<Vec<MidiEvent>>>)
    ensures
        tracks_view(r) == parsed_midi(data@),
{
    match midly::Smf::parse(data) {
        Ok(smf) => Some(smf.tracks.iter().map(|t| t.iter().map(|ev| (ev.delta.as_int(), match ev.kind {
            midly::TrackEventKind::Midi { message: midly::MidiMessage::NoteOn { key, vel }, .. } => Some((key.as_int(), vel.as_int())),
            _ => None,
        })).collect()).collect()),
        Err(_) => None,
    }
}

/// A request to the host's sound output.
#[derive(Debug)]
pub enum AudioEffect {
    /// Silence everything scheduled.
    StopAudio,
    /// Play MIDI key `key` (69 is the A at 440 Hz) at velocity `vel` (of
    /// 127) for `duration_ms`, with wave form `wave`, `delay_ms` from now.
    ScheduleNote { key: u8, vel: u8, duration_ms: u32, wave: u32, delay_ms: u32 },
}

/// When the `n`-th event of a track starts, in milliseconds: 2 ms per
/// tick, counted in a 32-bit clock that wraps.
pub open spec fn time_at(evs: Seq<MidiEvent>, n: int) -> u32
    decreases n,
{
    if n <= 0 {
        0
    } else {
        time_at(evs, n - 1).wrapping_add(evs[n - 1].0.wrapping_mul(2))
    }
}

/// The notes of the first `n` events of a track: a Note On with a
/// positive velocity sounds for 200 ms as a square wave.
pub open spec fn track_notes(evs: Seq<MidiEvent>, n: int) -> Seq<AudioEffect>
    decreases n,
{
    if n <= 0 {
        Seq::empty()
    } else {
        track_notes(evs, n - 1) + match evs[n - 1].1 {
            Some((key, vel)) => if vel > 0 {
                seq![AudioEffect::ScheduleNote { key, vel, duration_ms: 200, wave: 1, delay_ms: time_at(evs, n) }]
            } else {
                Seq::empty()
            },
            None => Seq::empty(),
        }
    }
}

/// The notes of the first `m` tracks, track by track.
pub open spec fn schedule(ts: Seq<Seq<MidiEvent>>, m: int) -> Seq<AudioEffect>
    decreases m,
{
    if m <= 0 {
        Seq::empty()
    } else {
        schedule(ts, m - 1) + track_notes(ts[m - 1], ts[m - 1].len() as int)
    }
}

/// The notes to schedule for a file's tracks.
pub fn schedule_tracks(ts: &Vec<Vec<MidiEvent>>) -> (r: Vec<AudioEffect>)
    ensures
        r@ == schedule(ts@.map_values(|t: Vec<MidiEvent>| t@), ts@.len() as int),
{
    let ghost tv = ts@.map_values(|t: Vec<MidiEvent>| t@);
    let mut out: Vec<AudioEffect> = Vec::new();
    let mut m: usize = 0;
    while m < ts.len()
        invariant
            m <= ts@.len(),
            tv == ts@.map_values(|t: Vec<MidiEvent>| t@),
            out@ == schedule(tv, m as int),
        decreases ts@.len() - m,
    {
        let track = &ts[m];
        assert(tv[m as int] == track@);
        let ghost base = out@;
        let mut now: u32 = 0;
        let mut i: usize = 0;
        while i < track.len()
            invariant
                i <= track@.len(),
                now == time_at(track@, i as int),
                out@ == base + track_notes(track@, i as int),
            decreases track@.len() - i,
        {
            let (delta, msg) = track[i];
            now = now.wrapping_add(delta.wrapping_mul(2));
            let ghost before = out@;
            match msg {
                Some((key, vel)) => {
                    if vel > 0 {
                        out.push(AudioEffect::ScheduleNote { key, vel, duration_ms: 200, wave: 1, delay_ms: now });
                    }
                },
                None => {},
            }
            proof {
                assert(track_notes(track@, i + 1) == track_notes(track@, i as int) + match track@[i as int].1 {
                    Some((key, vel)) => if vel > 0 {
                        seq![AudioEffect::ScheduleNote { key, vel, duration_ms: 200, wave: 1, delay_ms: time_at(track@, i + 1) }]
                    } else {
                        Seq::empty()
                    },
                    None => Seq::empty(),
                });
                assert(out@ =~= base + track_notes(track@, i + 1));
            }
            i = i + 1;
        }
        m = m + 1;
    }
    out
}

/// The notes that playing a file schedules: none when `midly` cannot read
/// it.
pub fn play_midi(data: &[u8]) -> (r: Vec<AudioEffect>)
    ensures
        r@ == match parsed_midi(data@) {
            Some(ts) => schedule(ts, ts.len() as int),
            None => Seq::empty(),
        },
{
    match parse_midi_events(data) {
        Some(ts) => schedule_tracks(&ts),
        None => Vec::new(),
    }
}

/// The player as a mathematical value. `pending` is a file asked of the
/// host, `from_picker` whether it was chosen in the picker.
pub struct MidiView {
    pub win: Window,
    pub open_btn: ButtonView,
    pub play_btn: ButtonView,
    pub picker: PickerView,
    pub data: Option<Seq<u8>>,
    pub status: Seq<char>,
    pub playing: bool,
    pub frame: u64,
    pub pending: Option<Seq<char>>,
    pub from_picker: bool,
}

/// The MIDI player.
pub struct MidiPlayer {
    win: Window,
    btn_open: Button,
    btn_play: Button,
    picker: FilePicker,
    midi_data: Option<Vec<u8>>,
    status_text: String,
    is_playing: bool,
    frame: u64,
    pending: Option<String>,
    from_picker: bool,
}

/// The two halves of a frame: the host draws the level meter between them.
pub struct MidiFrame {
    pub under: Vec<DrawCmd>,
    pub over: Vec<DrawCmd>,
}

pub open spec fn play_text() -> Seq<char> {
    "▶️ Play"@
}

pub open spec fn stop_text() -> Seq<char> {
    "⏹️ Stop"@
}

/// A file delivered by the host: a file that could be read is loaded;
/// one chosen in the picker also stops what plays.
pub open spec fn loaded(v: MidiView, data: Option<Seq<u8>>) -> (MidiView, bool, Seq<AudioEffect>) {
    match v.pending {
        None => (v, false, Seq::empty()),
        Some(path) => match data {
            None => (MidiView { pending: None, ..v }, false, Seq::empty()),
            Some(d) => {
                let v1 = MidiView { pending: None, data: Some(d), status: "Loaded: "@ + path, ..v };
                if v.from_picker {
                    (
                        MidiView { playing: false, play_btn: ButtonView { text: play_text(), ..v.play_btn }, ..v1 },
                        true,
                        seq![AudioEffect::StopAudio],
                    )
                } else {
                    (v1, false, Seq::empty())
                }
            },
        },
    }
}

pub open spec fn hit(b: ButtonView, mx: i32, my: i32, x: i32, y: i32) -> bool {
    b.pressed && inside(mx, my, x, y, b.w, b.h)
}

/// A release with the picker closed: the Open button opens the picker,
/// the Play button starts or stops playing.
pub open spec fn buttons_release(v: MidiView, mx: i32, my: i32) -> (MidiView, bool, Seq<AudioEffect>) {
    let v1 = if hit(v.open_btn, mx, my, wadd(v.win.x, 10), wadd(v.win.y, 5)) { MidiView { picker: picker_opened(v.picker), ..v } } else { v };
    let v2 = MidiView { open_btn: released(v.open_btn), play_btn: released(v.play_btn), ..v1 };
    let (v3, fx) = if hit(v.play_btn, mx, my, wadd(v.win.x, 160), wadd(v.win.y, 5)) {
        if v.playing {
            (MidiView { playing: false, play_btn: ButtonView { text: play_text(), ..v2.play_btn }, ..v2 }, seq![AudioEffect::StopAudio])
        } else {
            match v.data {
                Some(d) => (
                    MidiView { playing: true, play_btn: ButtonView { text: stop_text(), ..v2.play_btn }, ..v2 },
                    match parsed_midi(d) {
                        Some(ts) => schedule(ts, ts.len() as int),
                        None => Seq::empty(),
                    },
                ),
                None => (v2, Seq::empty()),
            }
        }
    } else {
        (v2, Seq::empty())
    };
    (v3, v.open_btn.pressed || v.play_btn.pressed, fx)
}

/// A release over the open picker: a file chosen there is asked of the
/// host.
pub open spec fn picker_release(v: MidiView, mx: i32, my: i32) -> (MidiView, bool) {
    let (p1, redraw) = picker_mouse_up(v.picker, mx, my, wadd(v.win.x, 20), wadd(v.win.y, 20));
    match p1.selected {
        Some(path) => (MidiView { picker: PickerView { selected: None, ..p1 }, pending: Some(path), from_picker: true, ..v }, redraw),
        None => (MidiView { picker: p1, ..v }, redraw),
    }
}

/// The part of a frame under the level meter.
pub open spec fn under_draw(v: MidiView, x: i32, y: i32, w: i32, h: i32) -> Seq<DrawView> {
    seq![rect_v(x, y, w, h, Rgba { r: 10, g: 10, b: 15, a: 100 }), rect_v(x, y, w, 40, Rgba { r: 15, g: 15, b: 20, a: 100 })]
        + button_draw(v.open_btn, wadd(x, 10), wadd(y, 5))
        + (if v.data is Some { button_draw(v.play_btn, wadd(x, 160), wadd(y, 5)) } else { Seq::empty() })
}

/// The part of a frame over the level meter.
pub open spec fn over_draw(v: MidiView, x: i32, y: i32) -> Seq<DrawView> {
    seq![text_v(wadd(x, 20), wadd(y, 65), v.status, 14, Rgba { r: 80, g: 80, b: 80, a: 100 })]
        + (if v.picker.is_open { picker_draw(v.picker, wadd(x, 20), wadd(y, 20)) } else { Seq::empty() })
}

impl MidiPlayer {
    pub closed spec fn view(&self) -> MidiView {
        MidiView {
            win: self.win,
            open_btn: button_view(self.btn_open),
            play_btn: button_view(self.btn_play),
            picker: self.picker.view(),
            data: match self.midi_data {
                Some(d) => Some(d@),
                None => None,
            },
            status: self.status_text@,
            playing: self.is_playing,
            frame: self.frame,
            pending: match self.pending {
                Some(p) => Some(p@),
                None => None,
            },
            from_picker: self.from_picker,
        }
    }

    /// The player in window `win`; a launch argument is a file to load.
    pub fn new(win: Window, arg: Option<String>) -> (p: Self)
        ensures
            p.view() == (MidiView {
                win,
                open_btn: ButtonView { text: "🎵 Open MIDI"@, w: 140, h: 30, hovered: false, pressed: false },
                play_btn: ButtonView { text: play_text(), w: 100, h: 30, hovered: false, pressed: false },
                picker: picker_initial(),
                data: None,
                status: "Ready."@,
                playing: false,
                frame: 0,
                pending: match arg {
                    Some(a) => Some(a@),
                    None => None,
                },
                from_picker: false,
            }),
    {
        MidiPlayer {
            win,
            btn_open: Button::new("🎵 Open MIDI", 140, 30),
            btn_play: Button::new("▶️ Play", 100, 30),
            picker: FilePicker::new(),
            midi_data: None,
            status_text: copy_str("Ready."),
            is_playing: false,
            frame: 0,
            pending: arg,
            from_picker: false,
        }
    }

    /// The file the player waits for, if any.
    pub fn wanted_file(&self) -> (r: Option<String>)
        ensures
            match r {
                Some(p) => self.view().pending == Some(p@),
                None => self.view().pending is None,
            },
    {
        match &self.pending {
            Some(p) => Some(p.clone()),
            None => None,
        }
    }

    /// The host delivers the file asked for (`None` when it could not be
    /// read or is empty); see `loaded`.
    pub fn file_loaded(&mut self, data: Option<Vec<u8>>) -> (r: (bool, Vec<AudioEffect>))
        ensures
            ({
                let (v1, redraw, fx) = loaded(old(self).view(), match data {
                    Some(d) => Some(d@),
                    None => None,
                });
                final(self).view() == v1 && r.0 == redraw && r.1@ == fx
            }),
    {
        let mut fx: Vec<AudioEffect> = Vec::new();
        let path = match self.pending.take() {
            Some(p) => p,
            None => {
                return (false, fx);
            },
        };
        match data {
            None => (false, fx),
            Some(d) => {
                self.midi_data = Some(d);
                let mut st = copy_str("Loaded: ");
                st.append(path.as_str());
                self.status_text = st;
                if self.from_picker {
                    self.is_playing = false;
                    self.btn_play.text = copy_str("▶️ Play");
                    fx.push(AudioEffect::StopAudio);
                    assert(fx@ =~= seq![AudioEffect::StopAudio]);
                    (true, fx)
                } else {
                    (false, fx)
                }
            },
        }
    }

    /// Moves the window, counts the frame and draws it.
    pub fn tick(&mut self, x: i32, y: i32, w: i32, h: i32) -> (f: MidiFrame)
        ensures
            final(self).view() == (MidiView {
                win: Window { x, y, w, h, ..old(self).view().win },
                frame: old(self).view().frame.wrapping_add(1),
                ..old(self).view()
            }),
            draw_views(f.under@) == under_draw(old(self).view(), x, y, w, h),
            draw_views(f.over@) == over_draw(old(self).view(), x, y),
    {
        self.win.x = x;
        self.win.y = y;
        self.win.w = w;
        self.win.h = h;
        let mut under = self.win.draw_background(Rgba { r: 10, g: 10, b: 15, a: 100 });
        push_rect(&mut under, x, y, w, 40, Rgba { r: 15, g: 15, b: 20, a: 100 });
        let b = self.btn_open.draw(add_w(x, 10), add_w(y, 5));
        append_cmds(&mut under, b);
        if self.midi_data.is_some() {
            let p = self.btn_play.draw(add_w(x, 160), add_w(y, 5));
            append_cmds(&mut under, p);
        }
        self.frame = self.frame.wrapping_add(1);
        let mut over: Vec<DrawCmd> = Vec::new();
        push_text(&mut over, add_w(x, 20), add_w(y, 65), self.status_text.clone(), 14, Rgba { r: 80, g: 80, b: 80, a: 100 });
        if self.picker.is_open() {
            let p = self.picker.draw(add_w(x, 20), add_w(y, 20));
            append_cmds(&mut over, p);
        }
        assert(draw_views(under@) =~= under_draw(old(self).view(), x, y, w, h));
        assert(draw_views(over@) =~= over_draw(old(self).view(), x, y));
        MidiFrame { under, over }
    }

    /// The picker, when open, or else the buttons track the pointer (the
    /// Play button only once a file is loaded); 1 when something changed.
    pub fn handle_mouse_move(&mut self, mx: i32, my: i32) -> (redraw: i32)
        ensures
            ({
                let v = old(self).view();
                if v.picker.is_open {
                    let (l, r) = list_mouse_move(v.picker.list, mx, my, picker_geom(wadd(v.win.x, 20), wadd(v.win.y, 20)));
                    final(self).view() == (MidiView { picker: PickerView { list: l, ..v.picker }, ..v }) && redraw == (if r { 1i32 } else { 0i32 })
                } else {
                    let ho = inside(mx, my, wadd(v.win.x, 10), wadd(v.win.y, 5), v.open_btn.w, v.open_btn.h);
                    let hp = inside(mx, my, wadd(v.win.x, 160), wadd(v.win.y, 5), v.play_btn.w, v.play_btn.h);
                    let play = if v.data is Some { ButtonView { hovered: hp, ..v.play_btn } } else { v.play_btn };
                    &&& final(self).view() == (MidiView { open_btn: ButtonView { hovered: ho, ..v.open_btn }, play_btn: play, ..v })
                    &&& redraw == (if ho != v.open_btn.hovered || (v.data is Some && hp != v.play_btn.hovered) { 1i32 } else { 0i32 })
                }
            }),
    {
        let x = self.win.x;
        let y = self.win.y;
        let mut redraw = false;
        if self.picker.is_open() {
            redraw = self.picker.handle_mouse_move(mx, my, add_w(x, 20), add_w(y, 20));
        } else {
            redraw = self.btn_open.handle_mouse_move(mx, my, add_w(x, 10), add_w(y, 5));
            if self.midi_data.is_some() {
                let r = self.btn_play.handle_mouse_move(mx, my, add_w(x, 160), add_w(y, 5));
                redraw = redraw || r;
            }
        }
        if redraw { 1 } else { 0 }
    }

    /// A press goes to the open picker, or else to the buttons; 1 when it
    /// landed on something.
    pub fn handle_mouse_down(&mut self, mx: i32, my: i32) -> (redraw: i32)
        ensures
            ({
                let v = old(self).view();
                if v.picker.is_open {
                    let (l, r) = list_mouse_down(v.picker.list, mx, my, picker_geom(wadd(v.win.x, 20), wadd(v.win.y, 20)));
                    final(self).view() == (MidiView { picker: PickerView { list: l, ..v.picker }, ..v }) && redraw == (if r { 1i32 } else { 0i32 })
                } else {
                    let ho = inside(mx, my, wadd(v.win.x, 10), wadd(v.win.y, 5), v.open_btn.w, v.open_btn.h);
                    let hp = v.data is Some && inside(mx, my, wadd(v.win.x, 160), wadd(v.win.y, 5), v.play_btn.w, v.play_btn.h);
                    &&& final(self).view() == (MidiView {
                        open_btn: ButtonView { pressed: v.open_btn.pressed || ho, ..v.open_btn },
                        play_btn: ButtonView { pressed: v.play_btn.pressed || hp, ..v.play_btn },
                        ..v
                    })
                    &&& redraw == (if ho || hp { 1i32 } else { 0i32 })
                }
            }),
    {
        let x = self.win.x;
        let y = self.win.y;
        let mut redraw = false;
        if self.picker.is_open() {
            redraw = self.picker.handle_mouse_down(mx, my, add_w(x, 20), add_w(y, 20));
        } else {
            redraw = self.btn_open.handle_mouse_down(mx, my, add_w(x, 10), add_w(y, 5));
            if self.midi_data.is_some() {
                let r = self.btn_play.handle_mouse_down(mx, my, add_w(x, 160), add_w(y, 5));
                redraw = redraw || r;
            }
        }
        if redraw { 1 } else { 0 }
    }

    /// A release: over the open picker see `picker_release`, otherwise
    /// `buttons_release`; it gives back 1 when something changed, and the
    /// sound requests to make.
    pub fn handle_mouse_up(&mut self, mx: i32, my: i32) -> (r: (i32, Vec<AudioEffect>))
        ensures
            ({
                let v = old(self).view();
                if v.picker.is_open {
                    let (v1, redraw) = picker_release(v, mx, my);
                    final(self).view() == v1 && r.0 == (if redraw { 1i32 } else { 0i32 }) && r.1@.len() == 0
                } else {
                    let (v1, redraw, fx) = buttons_release(v, mx, my);
                    final(self).view() == v1 && r.0 == (if redraw { 1i32 } else { 0i32 }) && r.1@ == fx
                }
            }),
    {
        let x = self.win.x;
        let y = self.win.y;
        let mut fx: Vec<AudioEffect> = Vec::new();
        if self.picker.is_open() {
            let redraw = self.picker.handle_mouse_up(mx, my, add_w(x, 20), add_w(y, 20));
            match self.picker.take_selected() {
                Some(path) => {
                    self.pending = Some(path);
                    self.from_picker = true;
                },
                None => {},
            }
            return (if redraw { 1 } else { 0 }, fx);
        }
        let redraw = self.btn_open.is_pressed || self.btn_play.is_pressed;
        if self.btn_open.is_pressed {
            let hit_open = inside_exec(mx, my, add_w(x, 10), add_w(y, 5), self.btn_open.w, self.btn_open.h);
            self.btn_open.is_pressed = false;
            if hit_open {
                self.picker.open();
            }
        }
        if self.btn_play.is_pressed {
            let hit_play = inside_exec(mx, my, add_w(x, 160), add_w(y, 5), self.btn_play.w, self.btn_play.h);
            self.btn_play.is_pressed = false;
            if hit_play {
                if self.is_playing {
                    fx.push(AudioEffect::StopAudio);
                    self.btn_play.text = copy_str("▶️ Play");
                    self.is_playing = false;
                    assert(fx@ =~= seq![AudioEffect::StopAudio]);
                } else {
                    match &self.midi_data {
                        Some(d) => {
                            fx = play_midi(d.as_slice());
                            self.btn_play.text = copy_str("⏹️ Stop");
                            self.is_playing = true;
                        },
                        None => {},
                    }
                }
            }
        }
        (if redraw { 1 } else { 0 }, fx)
    }

    /// The folder whose entries the picker waits for, if it waits.
    pub fn wanted_listing(&self) -> (r: Option<String>)
        ensures
            match r {
                Some(p) => self.view().picker.listing_wanted && p@ == self.view().picker.path,
                None => !self.view().picker.listing_wanted,
            },
    {
        self.picker.wanted_listing()
    }

    /// Whether `n` more entries still fit in the picker's list.
    pub fn listing_fits(&self, n: usize) -> (r: bool)
        ensures
            r == crate::ui::picker::list_fits(self.view().picker.list.items.len() + n as nat),
    {
        self.picker.listing_fits(n)
    }

    /// Passes a folder listing to the picker.
    pub fn set_entries(&mut self, entries: Vec<DirEntry>)
        requires
            list_fits(old(self).view().picker.list.items.len() + entries@.len()),
        ensures
            final(self).view() == (MidiView {
                picker: PickerView {
                    list: ListView {
                        items: with_entries(old(self).view().picker.list.items, entry_views(entries@), 250, 25, 20, 70, 30),
                        ..old(self).view().picker.list
                    },
                    listing_wanted: false,
                    ..old(self).view().picker
                },
                ..old(self).view()
            }),
    {
        self.picker.set_entries(entries);
    }
}

} // verus!
