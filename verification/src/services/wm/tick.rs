//! One time slice of the window manager: handle the waiting messages, keep
//! the dock clock current, re-wrap terminal text and repaint when needed.

use super::arith::{sub_w, wsub};
use super::events::{quiet, windows_view, wm_step, WmStep};
use super::model::{strings_view, WinModel, Window, WindowManager, WmModel};
use super::paint::redraw_ops;
use crate::host::HostCall;
use crate::ipc::{
    bus_send_all, bus_with_queue, draw_ops, lemma_receive_through_sends, lemma_send_all_concat, messages_to, queue_in,
    Message, MessagePayload, ProcessId,
};
use crate::process::Process;
use crate::sys::{SyscallEnv, World};
use crate::text::{chars_of, fit, fit_exec, lemma_fit_all, lemma_fit_le, str_eq, string_of};
use vstd::prelude::*;
use vstd::utf8::encode_utf8;

verus! {

// ---------------------------------------------------------------------
// Wrapping terminal text

/// How many characters fit on one line of a terminal `w` pixels wide
/// (8.4 pixels per character after a 20 pixel margin, at least 10).
pub open spec fn chars_per_line(w: i32) -> nat {
    let d = wsub(w, 20);
    if d <= 0 {
        10
    } else {
        let q = (d as int) * 5 / 42;
        if q >= 10 { q as nat } else { 10 }
    }
}

/// A line cut, as the window manager cuts terminal text, into pieces of at
/// most `cpl` bytes of UTF-8: while the rest is longer than `cpl` bytes, a
/// piece of the characters that fit in `cpl` bytes comes off the front; the
/// last piece holds what is left, possibly nothing. Where byte `cpl` of the
/// rest starts a character, the piece is exactly its first `cpl` bytes (see
/// `lemma_fit_at_boundary`), as `str::split_at(cpl)` cuts it; where it
/// falls inside a character, `split_at` would stop the program, and the
/// piece ends before that character instead.
pub open spec fn wrap_line(line: Seq<char>, cpl: nat) -> Seq<Seq<char>>
    decreases line.len(),
{
    let k = fit(line, cpl);
    if encode_utf8(line).len() > cpl && k > 0 {
        proof {
            lemma_fit_le(line, cpl);
        }
        seq![line.take(k as int)] + wrap_line(line.skip(k as int), cpl)
    } else {
        seq![line]
    }
}

pub open spec fn wrap_lines(lines: Seq<Seq<char>>, cpl: nat) -> Seq<Seq<char>>
    decreases lines.len(),
{
    if lines.len() == 0 {
        Seq::empty()
    } else {
        wrap_lines(lines.drop_last(), cpl) + wrap_line(lines.last(), cpl)
    }
}

/// A terminal window whose text is out of date gets it wrapped again.
pub open spec fn rewrap(w: WinModel) -> WinModel {
    if w.title == "Terminal"@ && (w.needs_wrap || w.wrap_width != w.w) {
        WinModel { wrapped: wrap_lines(w.lines, chars_per_line(w.w)), wrap_width: w.w, needs_wrap: false, ..w }
    } else {
        w
    }
}

// ---------------------------------------------------------------------
// The dock clock

/// Local time in milliseconds, from the host's UTC time and its time-zone
/// offset (as the host reports it: UTC minus local).
pub open spec fn local_ms(utc_ms: u64, tz_offset_ms: i64) -> u64 {
    (((utc_ms as i64) as int - tz_offset_ms as int) as i64) as u64
}

pub open spec fn digit(d: int) -> char {
    (48 + d) as char
}

/// `"HH:MM"` for a local time.
pub open spec fn clock_text(local: u64) -> Seq<char> {
    let s = local / 1000;
    let m = (s / 60) % 60;
    let h = (s / 3600) % 24;
    seq![digit((h / 10) as int), digit((h % 10) as int), ':', digit((m / 10) as int), digit((m % 10) as int)]
}

// ---------------------------------------------------------------------
// A whole slice

/// Working through `msgs` in order.
pub open spec fn wm_fold(m: WmModel, me: ProcessId, now_ms: u64, msgs: Seq<Message>) -> WmStep
    decreases msgs.len(),
{
    if msgs.len() == 0 {
        quiet(m, false)
    } else {
        let a = wm_fold(m, me, now_ms, msgs.drop_last());
        let b = wm_step(a.model, me, now_ms, msgs.last().payload);
        WmStep { model: b.model, outs: a.outs + b.outs, calls: a.calls + b.calls, redraw: a.redraw || b.redraw }
    }
}

/// Handling messages never changes which process the window manager is or
/// where it draws.
pub proof fn lemma_fold_keeps_ids(m: WmModel, me: ProcessId, now_ms: u64, msgs: Seq<Message>)
    ensures
        wm_fold(m, me, now_ms, msgs).model.display_server_pid == m.display_server_pid,
        wm_fold(m, me, now_ms, msgs).model.pid == m.pid,
    decreases msgs.len(),
{
    if msgs.len() > 0 {
        lemma_fold_keeps_ids(m, me, now_ms, msgs.drop_last());
    }
}

/// The state after a slice (before any repaint), and whether to repaint.
pub open spec fn wm_tick_model(m: WmModel, me: ProcessId, now_ms: u64, tz_offset_ms: i64, msgs: Seq<Message>) -> (WmModel, bool) {
    let m1 = WmModel { tick_count: vstd::wrapping::u32_specs::wrapping_add(m.tick_count, 1), ..m };
    let f = wm_fold(m1, me, now_ms, msgs);
    let local = local_ms(now_ms, tz_offset_ms);
    let text = clock_text(local);
    let half = local / 500;
    let m2 = WmModel {
        last_time_str: text,
        last_half_second: half,
        ..f.model
    };
    let redraw = m1.tick_count % 30 == 0 || f.redraw || text != f.model.last_time_str || half != f.model.last_half_second;
    let m3 = if redraw { WmModel { windows: m2.windows.map_values(|w: WinModel| rewrap(w)), ..m2 } } else { m2 };
    (m3, redraw)
}

fn digit_char(d: u64) -> (c: char)
    requires
        d < 10,
    ensures
        c == digit(d as int),
{
    if d == 0 { '0' } else if d == 1 { '1' } else if d == 2 { '2' } else if d == 3 { '3' } else if d == 4 { '4' }
    else if d == 5 { '5' } else if d == 6 { '6' } else if d == 7 { '7' } else if d == 8 { '8' } else { '9' }
}

fn chars_per_line_exec(w: i32) -> (r: usize)
    ensures
        r == chars_per_line(w),
        r >= 10,
{
    let d = sub_w(w, 20);
    if d <= 0 {
        10
    } else {
        let q: u64 = (d as u64) * 5 / 42;
        if q >= 10 { q as usize } else { 10 }
    }
}

/// The pieces of one line.
pub fn wrap_line_exec(line: &String, cpl: usize) -> (r: Vec<String>)
    ensures
        strings_view(r@) == wrap_line(line@, cpl as nat),
{
    let mut cur = chars_of(line.as_str());
    let mut out: Vec<String> = Vec::new();
    assert(strings_view(out@) + wrap_line(cur@, cpl as nat) =~= wrap_line(line@, cpl as nat));
    let mut k = fit_exec(cur.as_slice(), cpl).0;
    proof {
        lemma_fit_le(cur@, cpl as nat);
        lemma_fit_all(cur@, cpl as nat);
    }
    while k < cur.len() && k > 0
        invariant
            k == fit(cur@, cpl as nat),
            k <= cur@.len(),
            (k == cur@.len()) == (encode_utf8(cur@).len() <= cpl),
            strings_view(out@) + wrap_line(cur@, cpl as nat) == wrap_line(line@, cpl as nat),
        decreases cur@.len(),
    {
        let ghost c = cur@;
        let rest = cur.split_off(k);
        let piece = string_of(cur.as_slice());
        let ghost o = out@;
        out.push(piece);
        assert(c.take(k as int) =~= cur@);
        assert(c.skip(k as int) =~= rest@);
        assert(wrap_line(c, cpl as nat) == seq![c.take(k as int)] + wrap_line(c.skip(k as int), cpl as nat));
        assert(strings_view(out@) =~= strings_view(o).push(piece@));
        assert(strings_view(out@) + wrap_line(rest@, cpl as nat) =~= strings_view(o) + wrap_line(c, cpl as nat));
        cur = rest;
        k = fit_exec(cur.as_slice(), cpl).0;
        proof {
            lemma_fit_le(cur@, cpl as nat);
            lemma_fit_all(cur@, cpl as nat);
        }
    }
    let ghost o = out@;
    let piece = string_of(cur.as_slice());
    out.push(piece);
    assert(wrap_line(cur@, cpl as nat) == seq![cur@]);
    assert(strings_view(out@) =~= strings_view(o) + wrap_line(cur@, cpl as nat));
    out
}

impl WindowManager {
    fn rewrap_window(w: Window) -> (r: Window)
        ensures
            r@ == rewrap(w@),
    {
        let mut w = w;
        if str_eq(w.title.as_str(), "Terminal") && (w.terminal_needs_wrap || w.terminal_wrap_width != w.w) {
            let cpl = chars_per_line_exec(w.w);
            let mut wrapped: Vec<String> = Vec::new();
            let mut i: usize = 0;
            assert(strings_view(wrapped@) =~= wrap_lines(strings_view(w.terminal_lines@).take(0), cpl as nat));
            while i < w.terminal_lines.len()
                invariant
                    cpl > 0,
                    i <= w.terminal_lines@.len(),
                    strings_view(wrapped@) == wrap_lines(strings_view(w.terminal_lines@).take(i as int), cpl as nat),
                decreases w.terminal_lines@.len() - i,
            {
                let pieces = wrap_line_exec(&w.terminal_lines[i], cpl);
                let ghost before = wrapped@;
                let mut pieces = pieces;
                wrapped.append(&mut pieces);
                proof {
                    let ls = strings_view(w.terminal_lines@);
                    assert(ls.take(i + 1).drop_last() =~= ls.take(i as int));
                    assert(ls.take(i + 1).last() == w.terminal_lines@[i as int]@);
                    assert(strings_view(wrapped@) =~= strings_view(before) + wrap_line(w.terminal_lines@[i as int]@, cpl as nat));
                }
                i = i + 1;
            }
            assert(strings_view(w.terminal_lines@).take(w.terminal_lines@.len() as int) =~= strings_view(w.terminal_lines@));
            w.terminal_wrapped_lines = wrapped;
            w.terminal_wrap_width = w.w;
            w.terminal_needs_wrap = false;
        }
        w
    }

    fn rewrap_all(&mut self)
        ensures
            final(self).pid == old(self).pid,
            final(self)@ == (WmModel { windows: old(self)@.windows.map_values(|w: WinModel| rewrap(w)), ..old(self)@ }),
    {
        let ghost ws0 = self.windows@;
        let mut done: Vec<Window> = Vec::new();
        let mut rest: Vec<Window> = Vec::new();
        std::mem::swap(&mut rest, &mut self.windows);
        let ghost target = windows_view(ws0).map_values(|w: WinModel| rewrap(w));
        while rest.len() > 0
            invariant
                done@.len() + rest@.len() == ws0.len(),
                rest@ == ws0.subrange(done@.len() as int, ws0.len() as int),
                windows_view(done@) == target.take(done@.len() as int),
                target == windows_view(ws0).map_values(|w: WinModel| rewrap(w)),
                self.windows@.len() == 0,
            decreases rest@.len(),
        {
            let ghost k: int = done@.len() as int;
            let w = rest.remove(0);
            let w2 = Self::rewrap_window(w);
            let ghost d0 = done@;
            done.push(w2);
            proof {
                assert(w == ws0[k]);
                assert(windows_view(done@) =~= windows_view(d0).push(w2@));
                assert(windows_view(ws0).len() == ws0.len());
                assert(target.len() == ws0.len());
                assert(windows_view(ws0)[k] == ws0[k]@);
                assert(target[k] == rewrap(ws0[k]@));
                assert(rest@ =~= ws0.subrange(k + 1, ws0.len() as int));
                assert(windows_view(done@) =~= target.take(k + 1));
            }
        }
        assert(target.take(done@.len() as int) =~= target);
        self.windows = done;
        assert(self@.windows =~= target);
    }

    fn update_clock(&mut self, utc_ms: u64, tz_offset_ms: i64) -> (changed: bool)
        ensures
            final(self).pid == old(self).pid,
            final(self)@ == (WmModel {
                last_time_str: clock_text(local_ms(utc_ms, tz_offset_ms)),
                last_half_second: local_ms(utc_ms, tz_offset_ms) / 500,
                ..old(self)@
            }),
            changed == (clock_text(local_ms(utc_ms, tz_offset_ms)) != old(self)@.last_time_str
                || local_ms(utc_ms, tz_offset_ms) / 500 != old(self)@.last_half_second),
    {
        let local: u64 = (((utc_ms as i64) as i128 - tz_offset_ms as i128) as i64) as u64;
        let s = local / 1000;
        let m = (s / 60) % 60;
        let h = (s / 3600) % 24;
        let mut text = String::new();
        text.push(digit_char(h / 10));
        text.push(digit_char(h % 10));
        text.push(':');
        text.push(digit_char(m / 10));
        text.push(digit_char(m % 10));
        assert(text@ =~= clock_text(local));
        let mut changed = false;
        if !str_eq(text.as_str(), self.last_time_str.as_str()) {
            self.last_time_str = text;
            changed = true;
        }
        let half = local / 500;
        if half != self.last_half_second {
            self.last_half_second = half;
            changed = true;
        }
        assert(self@.last_time_str =~= clock_text(local));
        changed
    }
}

/// Sends `ps` in order from this process to `to`.
pub fn send_all(env: &mut SyscallEnv, to: ProcessId, ps: Vec<MessagePayload>)
    requires
        old(env).wf(),
    ensures
        final(env).wf(),
        final(env).same_but_bus(old(env)),
        final(env).ipc@ == bus_send_all(old(env).ipc@, messages_to(old(env).pid, to, ps@)),
{
    let ghost all = ps@;
    let ghost base = env.ipc@;
    let total = ps.len();
    let mut rest = ps;
    let mut k: usize = 0;
    assert(messages_to(env.pid, to, all.take(0)) =~= Seq::<Message>::empty());
    while rest.len() > 0
        invariant
            env.wf(),
            env.same_but_bus(old(env)),
            k + rest@.len() == total,
            total == all.len(),
            rest@ == all.skip(k as int),
            env.ipc@ == bus_send_all(base, messages_to(env.pid, to, all.take(k as int))),
        decreases rest@.len(),
    {
        let p = rest.remove(0);
        let ghost before = env.ipc@;
        env.send_msg(to, p);
        proof {
            assert(p == all[k as int]);
            let ms = messages_to(env.pid, to, all.take(k as int));
            let ms2 = messages_to(env.pid, to, all.take(k + 1));
            assert(ms2.drop_last() =~= ms);
            assert(ms2.last() == Message { sender: env.pid, receiver: to, payload: p });
            assert(rest@ =~= all.skip(k + 1));
        }
        k = k + 1;
    }
    assert(all.take(k as int) =~= all);
}

impl WindowManager {
    /// Works through the messages waiting at the start of the slice.
    fn process_pending(&mut self, env: &mut SyscallEnv) -> (redraw: bool)
        requires
            old(env).wf(),
        ensures
            final(self).pid == old(self).pid,
            ({
                let f = wm_fold(old(self)@, old(env).pid, old(env).host.now_ms, queue_in(old(env).ipc@, old(env).pid));
                &&& final(self)@ == f.model
                &&& redraw == f.redraw
                &&& final(env).ipc@ == bus_send_all(bus_with_queue(old(env).ipc@, old(env).pid, Seq::empty()), f.outs)
                &&& final(env).host.calls@ == old(env).host.calls@ + f.calls
            }),
            final(env).wf(),
            final(env).pid == old(env).pid,
            final(env).registry == old(env).registry,
            final(env).host.now_ms == old(env).host.now_ms,
            final(env).host.tz_offset_ms == old(env).host.tz_offset_ms,
            final(env).host.next_window_id == old(env).host.next_window_id,
    {
        let ghost m0 = env.ipc@;
        let ghost me = env.pid;
        let ghost q0 = queue_in(m0, env.pid);
        let ghost c0 = env.host.calls@;
        let ghost now = env.host.now_ms;
        let ghost m1 = self@;
        let mut needs_redraw = false;
        let n = env.ipc.pending(env.pid);
        let mut k: usize = 0;
        assert(q0.skip(0) =~= q0);
        assert(q0.take(0) =~= Seq::<Message>::empty());
        proof {
            if q0.len() == 0 {
                assert(bus_with_queue(m0, me, q0) =~= m0);
            }
        }
        assert(c0 + Seq::<HostCall>::empty() =~= c0);
        while k < n
            invariant
                env.wf(),
                env.pid == me,
                env.registry == old(env).registry,
                env.host.now_ms == now,
                env.host.tz_offset_ms == old(env).host.tz_offset_ms,
                env.host.next_window_id == old(env).host.next_window_id,
                self.pid == old(self).pid,
                k <= n,
                n == q0.len(),
                q0 == queue_in(m0, me),
                self@ == wm_fold(m1, me, now, q0.take(k as int)).model,
                needs_redraw == wm_fold(m1, me, now, q0.take(k as int)).redraw,
                env.ipc@ == bus_send_all(bus_with_queue(m0, me, q0.skip(k as int)), wm_fold(m1, me, now, q0.take(k as int)).outs),
                env.host.calls@ == c0 + wm_fold(m1, me, now, q0.take(k as int)).calls,
            decreases n - k,
        {
            let ghost f = wm_fold(m1, me, now, q0.take(k as int));
            proof {
                lemma_receive_through_sends(m0, me, q0.skip(k as int), f.outs);
                assert(q0.skip(k as int).drop_first() =~= q0.skip(k + 1));
                assert(q0.skip(k as int)[0] == q0[k as int]);
                assert(q0.take(k + 1).drop_last() =~= q0.take(k as int));
                assert(q0.take(k + 1).last() == q0[k as int]);
            }
            let msg = env.recv_msg();
            match msg {
                Some(msg) => {
                    let ghost calls_before = env.host.calls@;
                    let r = self.handle_message(env, msg.payload);
                    proof {
                        let b = wm_step(f.model, me, now, q0[k as int].payload);
                        lemma_send_all_concat(bus_with_queue(m0, me, q0.skip(k + 1)), f.outs, b.outs);
                        assert(env.host.calls@ =~= c0 + (f.calls + b.calls));
                    }
                    needs_redraw = needs_redraw || r;
                },
                None => {},
            }
            k = k + 1;
        }
        assert(q0.skip(n as int) =~= Seq::<Message>::empty());
        assert(q0.take(n as int) =~= q0);
        needs_redraw
    }
}

impl Process for WindowManager {
    open spec fn slice(&self, b: World, after: Self, a: World) -> bool {
        let msgs = queue_in(b.bus, b.pid);
        let (m3, redraw) = wm_tick_model(self@, b.pid, b.now_ms, b.tz_offset_ms, msgs);
        let f = wm_fold(WmModel { tick_count: vstd::wrapping::u32_specs::wrapping_add(self@.tick_count, 1), ..self@ }, b.pid, b.now_ms, msgs);
        &&& after@ == m3
        &&& a.calls == b.calls + f.calls
        &&& a == (World { bus: a.bus, calls: a.calls, ..b })
        &&& exists|ps: Seq<MessagePayload>|
            (if redraw { draw_ops(ps) == redraw_ops(m3) } else { ps.len() == 0 })
            && #[trigger] a.bus == bus_send_all(bus_with_queue(b.bus, b.pid, Seq::empty()), f.outs + messages_to(b.pid, self@.display_server_pid, ps))
    }

    open spec fn process_id(&self) -> ProcessId {
        self@.pid
    }

    open spec fn inv(&self) -> bool {
        true
    }

    fn id(&self) -> (r: ProcessId)
        ensures
            r == self@.pid,
    {
        self.pid
    }

    fn name(&self) -> (r: &str)
        ensures
            r@ == "window_manager"@,
    {
        "window_manager"
    }

    /// Handles every message waiting at the start of the slice, refreshes
    /// the clock, and repaints when something changed.
    fn tick(&mut self, env: &mut SyscallEnv) -> (alive: bool)
        ensures
            alive,
            ({
                let msgs = queue_in(old(env).ipc@, old(env).pid);
                let (m3, redraw) = wm_tick_model(old(self)@, old(env).pid, old(env).host.now_ms, old(env).host.tz_offset_ms, msgs);
                let f = wm_fold(
                    WmModel { tick_count: vstd::wrapping::u32_specs::wrapping_add(old(self)@.tick_count, 1), ..old(self)@ },
                    old(env).pid,
                    old(env).host.now_ms,
                    msgs,
                );
                &&& final(self)@ == m3
                &&& final(env).host.calls@ == old(env).host.calls@ + f.calls
                &&& exists|ps: Seq<MessagePayload>|
                    (if redraw { draw_ops(ps) == redraw_ops(m3) } else { ps.len() == 0 })
                    && #[trigger] final(env).ipc@ == bus_send_all(
                        bus_with_queue(old(env).ipc@, old(env).pid, Seq::empty()),
                        f.outs + messages_to(old(env).pid, old(self)@.display_server_pid, ps),
                    )
            }),
            final(env).host.now_ms == old(env).host.now_ms,
            final(env).host.tz_offset_ms == old(env).host.tz_offset_ms,
            final(env).host.next_window_id == old(env).host.next_window_id,
    {
        let ghost m0 = env.ipc@;
        let ghost me = env.pid;
        let ghost q0 = queue_in(m0, env.pid);
        let ghost now = env.host.now_ms;
        self.tick_count = self.tick_count.wrapping_add(1);
        let ghost m1 = self@;
        let periodic = self.tick_count % 30 == 0;
        let handled = self.process_pending(env);
        let mut needs_redraw = periodic || handled;
        let changed = self.update_clock(env.host.now_ms, env.host.tz_offset_ms);
        needs_redraw = needs_redraw || changed;
        let ghost f = wm_fold(m1, me, now, q0);
        let ghost base = bus_with_queue(m0, me, Seq::empty());
        if needs_redraw {
            self.rewrap_all();
            let ps = self.redraw_payloads();
            let ghost psv = ps@;
            let ghost before = env.ipc@;
            send_all(env, self.display_server_pid, ps);
            proof {
                lemma_fold_keeps_ids(m1, me, now, q0);
                lemma_send_all_concat(base, f.outs, messages_to(me, m1.display_server_pid, psv));
                assert(env.ipc@ == bus_send_all(base, f.outs + messages_to(me, m1.display_server_pid, psv)));
            }
        } else {
            proof {
                assert(f.outs + messages_to(me, m1.display_server_pid, Seq::<MessagePayload>::empty()) =~= f.outs);
                assert(env.ipc@ == bus_send_all(base, f.outs + messages_to(me, m1.display_server_pid, Seq::<MessagePayload>::empty())));
            }
        }
        true
    }
}

} // verus!
