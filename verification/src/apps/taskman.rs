//! The task manager: the host's process list, refreshed every 30 frames.

use crate::ipc::Rgba;
use crate::services::wm::arith::{add_w, sub_w, wadd, wsub};
use crate::text::{chars_of, copy_str, decimal, decimal_exec, parse_u32, parse_u32_exec, seq_views, split_char, split_char_exec, string_of};
use crate::ui::{draw_views, push_rect, push_text, rect_v, text_v, DrawCmd, DrawView, Window};
use vstd::prelude::*;

verus! {

/// One row of the list.
pub struct ProcessInfo {
    pub pid: u32,
    pub name: String,
    pub memory_kb: u32,
    pub ptype: String,
}

pub struct InfoView {
    pub pid: u32,
    pub name: Seq<char>,
    pub memory_kb: u32,
    pub ptype: Seq<char>,
}

pub open spec fn info_view(p: ProcessInfo) -> InfoView {
    InfoView { pid: p.pid, name: p.name@, memory_kb: p.memory_kb, ptype: p.ptype@ }
}

pub open spec fn info_views(ps: Seq<ProcessInfo>) -> Seq<InfoView> {
    ps.map_values(|p: ProcessInfo| info_view(p))
}

pub open spec fn or_zero(o: Option<u32>) -> u32 {
    match o {
        Some(v) => v,
        None => 0,
    }
}

/// One `pid;name;bytes;type` record, if it has at least four fields; a
/// number that does not parse counts as 0.
pub open spec fn parse_record(r: Seq<char>) -> Option<InfoView> {
    let parts = split_char(r, ';');
    if parts.len() >= 4 {
        Some(InfoView {
            pid: or_zero(parse_u32(parts[0])),
            name: parts[1],
            memory_kb: or_zero(parse_u32(parts[2])) / 1024,
            ptype: parts[3],
        })
    } else {
        None
    }
}

pub open spec fn parse_records(rs: Seq<Seq<char>>) -> Seq<InfoView>
    decreases rs.len(),
{
    if rs.len() == 0 {
        Seq::empty()
    } else {
        parse_records(rs.drop_last()) + match parse_record(rs.last()) {
            Some(i) => seq![i],
            None => Seq::empty(),
        }
    }
}

/// The process list in the host's report: records separated by `|`.
pub open spec fn parse_system_info(info: Seq<char>) -> Seq<InfoView> {
    parse_records(split_char(info, '|'))
}

/// Reads the host's process report.
pub fn parse_system_info_exec(info: &str) -> (r: Vec<ProcessInfo>)
    ensures
        info_views(r@) == parse_system_info(info@),
{
    let recs = split_char_exec(chars_of(info).as_slice(), '|');
    let ghost rs = seq_views(recs@);
    let mut out: Vec<ProcessInfo> = Vec::new();
    let mut i: usize = 0;
    assert(rs.take(0) =~= Seq::<Seq<char>>::empty());
    assert(info_views(out@) =~= Seq::<InfoView>::empty());
    while i < recs.len()
        invariant
            i <= recs@.len(),
            rs == seq_views(recs@),
            info_views(out@) == parse_records(rs.take(i as int)),
        decreases recs@.len() - i,
    {
        let ghost before = info_views(out@);
        let parts = split_char_exec(recs[i].as_slice(), ';');
        if parts.len() >= 4 {
            let pid = match parse_u32_exec(parts[0].as_slice()) {
                Some(v) => v,
                None => 0,
            };
            let bytes = match parse_u32_exec(parts[2].as_slice()) {
                Some(v) => v,
                None => 0,
            };
            let p = ProcessInfo { pid, name: string_of(parts[1].as_slice()), memory_kb: bytes / 1024, ptype: string_of(parts[3].as_slice()) };
            out.push(p);
            assert(info_views(out@) =~= before.push(info_view(p)));
        } else {
            assert(info_views(out@) =~= before);
        }
        proof {
            assert(rs.take(i + 1).drop_last() =~= rs.take(i as int));
            assert(rs.take(i + 1).last() == recs@[i as int]@);
        }
        i = i + 1;
    }
    assert(rs.take(recs@.len() as int) =~= rs);
    out
}

pub open spec fn grey(v: u32) -> Rgba {
    Rgba { r: v, g: v, b: v, a: 100 }
}

/// The rows of the list, from `y + 50`, 25 pixels apart.
pub open spec fn rows_draw(ps: Seq<InfoView>, n: int, x: i32, y: i32) -> Seq<DrawView>
    decreases n,
{
    if n <= 0 {
        Seq::empty()
    } else {
        let p = ps[n - 1];
        let ry = wadd(wadd(y, 50), (25 * (n - 1)) as i32);
        rows_draw(ps, n - 1, x, y) + seq![
            text_v(wadd(x, 10), ry, decimal(p.pid as nat), 14, Rgba { r: 60, g: 90, b: 60, a: 100 }),
            text_v(wadd(x, 50), ry, p.name, 14, grey(90)),
            text_v(wadd(x, 220), ry, decimal(p.memory_kb as nat) + " KB"@, 14, Rgba { r: 60, g: 60, b: 90, a: 100 }),
            text_v(wadd(x, 320), ry, p.ptype, 14, grey(70)),
        ]
    }
}

/// The memory of the first `n` rows, added up as `u32` arithmetic wraps.
pub open spec fn total_memory(ps: Seq<InfoView>, n: int) -> u32
    decreases n,
{
    if n <= 0 {
        0
    } else {
        vstd::wrapping::u32_specs::wrapping_add(total_memory(ps, n - 1), ps[n - 1].memory_kb)
    }
}

/// A frame at `(x, y)`, `w` by `h`.
pub open spec fn taskman_draw(ps: Seq<InfoView>, x: i32, y: i32, w: i32, h: i32) -> Seq<DrawView> {
    let fy = wsub(wadd(y, h), 30);
    seq![
        rect_v(x, y, w, h, grey(12)),
        rect_v(x, y, w, 30, Rgba { r: 20, g: 20, b: 25, a: 100 }),
        text_v(wadd(x, 10), wadd(y, 20), "PID"@, 14, grey(80)),
        text_v(wadd(x, 50), wadd(y, 20), "Name"@, 14, grey(80)),
        text_v(wadd(x, 220), wadd(y, 20), "Memory"@, 14, grey(80)),
        text_v(wadd(x, 320), wadd(y, 20), "Type"@, 14, grey(80)),
    ] + rows_draw(ps, ps.len() as int, x, y) + seq![
        rect_v(x, fy, w, 30, Rgba { r: 15, g: 15, b: 20, a: 100 }),
        text_v(wadd(x, 10), wadd(fy, 20), "Total Memory: "@ + decimal(total_memory(ps, ps.len() as int) as nat) + " KB"@, 14, Rgba { r: 100, g: 100, b: 50, a: 100 }),
    ]
}

/// The task manager.
pub struct TaskManager {
    win: Window,
    frame: u64,
    processes: Vec<ProcessInfo>,
}

pub struct TaskView {
    pub win: Window,
    pub frame: u64,
    pub processes: Seq<InfoView>,
}

impl TaskManager {
    pub closed spec fn view(&self) -> TaskView {
        TaskView { win: self.win, frame: self.frame, processes: info_views(self.processes@) }
    }

    /// The task manager in window `win`, with an empty list.
    pub fn new(win: Window) -> (t: Self)
        ensures
            t.view() == (TaskView { win, frame: 0, processes: Seq::empty() }),
    {
        let t = Self { win, frame: 0, processes: Vec::new() };
        assert(t.view().processes =~= Seq::<InfoView>::empty());
        t
    }

    /// Whether the next frame reloads the list (every 30 frames, and while
    /// it is empty), so that the host must supply its report.
    pub fn wants_info(&self) -> (r: bool)
        ensures
            r == (vstd::wrapping::u64_specs::wrapping_add(self.view().frame, 1) % 30 == 0 || self.view().processes.len() == 0),
    {
        self.frame.wrapping_add(1) % 30 == 0 || self.processes.len() == 0
    }

    /// Moves the window, reloads the list from `info` when it is due, and
    /// draws a frame.
    pub fn tick(&mut self, x: i32, y: i32, w: i32, h: i32, info: Option<String>) -> (cmds: Vec<DrawCmd>)
        ensures
            ({
                let t = old(self).view();
                let f = vstd::wrapping::u64_specs::wrapping_add(t.frame, 1);
                let due = f % 30 == 0 || t.processes.len() == 0;
                let ps = if due {
                    match info {
                        Some(s) => parse_system_info(s@),
                        None => Seq::empty(),
                    }
                } else {
                    t.processes
                };
                &&& final(self).view() == (TaskView { win: Window { x, y, w, h, ..t.win }, frame: f, processes: ps })
                &&& draw_views(cmds@) == taskman_draw(ps, x, y, w, h)
            }),
    {
        self.win.x = x;
        self.win.y = y;
        self.win.w = w;
        self.win.h = h;
        self.frame = self.frame.wrapping_add(1);
        if self.frame % 30 == 0 || self.processes.len() == 0 {
            self.processes = match &info {
                Some(s) => parse_system_info_exec(s.as_str()),
                None => Vec::new(),
            };
            assert(info is None ==> info_views(self.processes@) =~= Seq::<InfoView>::empty());
        }
        let ghost ps = info_views(self.processes@);
        let mut cmds = self.win.draw_background(grey_exec(12));
        push_rect(&mut cmds, x, y, w, 30, Rgba { r: 20, g: 20, b: 25, a: 100 });
        push_text(&mut cmds, add_w(x, 10), add_w(y, 20), copy_str("PID"), 14, grey_exec(80));
        push_text(&mut cmds, add_w(x, 50), add_w(y, 20), copy_str("Name"), 14, grey_exec(80));
        push_text(&mut cmds, add_w(x, 220), add_w(y, 20), copy_str("Memory"), 14, grey_exec(80));
        push_text(&mut cmds, add_w(x, 320), add_w(y, 20), copy_str("Type"), 14, grey_exec(80));
        let ghost head = draw_views(cmds@);
        let mut total: u32 = 0;
        let mut row_y: i32 = add_w(y, 50);
        let mut i: usize = 0;
        while i < self.processes.len()
            invariant
                i <= self.processes@.len(),
                ps == info_views(self.processes@),
                total == total_memory(ps, i as int),
                row_y == wadd(wadd(y, 50), (25 * i) as i32),
                draw_views(cmds@) == head + rows_draw(ps, i as int, x, y),
            decreases self.processes@.len() - i,
        {
            let p = &self.processes[i];
            let mut mem = decimal_exec(p.memory_kb);
            mem.append(" KB");
            push_text(&mut cmds, add_w(x, 10), row_y, decimal_exec(p.pid), 14, Rgba { r: 60, g: 90, b: 60, a: 100 });
            push_text(&mut cmds, add_w(x, 50), row_y, p.name.clone(), 14, grey_exec(90));
            push_text(&mut cmds, add_w(x, 220), row_y, mem, 14, Rgba { r: 60, g: 60, b: 90, a: 100 });
            push_text(&mut cmds, add_w(x, 320), row_y, p.ptype.clone(), 14, grey_exec(70));
            total = total.wrapping_add(p.memory_kb);
            assert(wadd(wadd(y, 50), (25 * (i + 1)) as i32) == wadd(row_y, 25)) by (bit_vector)
                requires
                    row_y == wadd(wadd(y, 50), (25 * i) as i32);
            row_y = add_w(row_y, 25);
            i = i + 1;
            assert(draw_views(cmds@) =~= head + rows_draw(ps, i as int, x, y));
        }
        let fy = sub_w(add_w(y, h), 30);
        push_rect(&mut cmds, x, fy, w, 30, Rgba { r: 15, g: 15, b: 20, a: 100 });
        let mut t = copy_str("Total Memory: ");
        t.append(decimal_exec(total).as_str());
        t.append(" KB");
        push_text(&mut cmds, add_w(x, 10), add_w(fy, 20), t, 14, Rgba { r: 100, g: 100, b: 50, a: 100 });
        assert(draw_views(cmds@) =~= taskman_draw(ps, x, y, w, h));
        cmds
    }
}

fn grey_exec(v: u32) -> (c: Rgba)
    ensures
        c == grey(v),
{
    Rgba { r: v, g: v, b: v, a: 100 }
}

} // verus!
