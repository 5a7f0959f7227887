//! The kernel: the boot sequence, the scheduler round, and the requests that
//! processes address to the kernel itself (pid 0).

use crate::host::{host_view, host_views, HostCall, HostState, HostView};
use crate::ipc::{bus_receive, bus_receive_result, bus_send, bus_with_queue, queue_in, AppKind, IpcBus, Message, MessagePayload, ProcessId};
use crate::process::{
    fresh_display, fresh_input, fresh_terminal, fresh_vfs, fresh_wm, pids_of, round, Process, ProcessManager, ServiceProcess,
};
use crate::services::display::DisplayServer;
use crate::services::input::InputServer;
use crate::services::terminal::TerminalProcess;
use crate::services::vfs::VfsService;
use crate::services::wm::WindowManager;
use crate::sys::{ServiceRegistry, SyscallEnv, World};
use crate::text::{copy_str, push_bytes};
use vstd::prelude::*;

verus! {

/// Where the boot sequence stands; it advances once every 60 ticks.
#[derive(Clone, Copy, PartialEq, Eq, Structural, Debug)]
pub enum BootState {
    Starting,
    MountingVfs,
    InitIpc,
    StartingServices,
    Running,
}

/// The kernel as a mathematical value.
pub struct KernelView {
    pub ticks: u32,
    pub state: BootState,
    pub pids: Seq<ProcessId>,
    pub next_pid: ProcessId,
    pub registry: Map<Seq<char>, ProcessId>,
    pub input_pid: Option<ProcessId>,
    pub screen_w: i32,
    pub screen_h: i32,
    pub next_app_window_id: u32,
    pub bus: Map<ProcessId, Seq<Message>>,
    pub calls: Seq<HostView>,
}

pub open spec fn log_v(text: Seq<char>) -> HostView {
    HostView::Log { text }
}

/// One step of the boot sequence: its log lines, the services it starts
/// and the names it registers them under.
pub open spec fn boot_step(k: KernelView) -> KernelView {
    let n = k.next_pid;
    match k.state {
        BootState::Starting => KernelView {
            state: BootState::MountingVfs,
            calls: k.calls + seq![
                log_v("MonkeyOS Microkernel v0.1.0"@),
                log_v("[ OK ] Probing virtual hardware devices"@),
            ],
            ..k
        },
        BootState::MountingVfs => KernelView {
            state: BootState::InitIpc,
            pids: k.pids.push(n),
            next_pid: (n + 1) as usize,
            registry: k.registry.insert("vfs"@, n),
            calls: k.calls.push(log_v("[ OK ] Mounted Root Filesystem (/)"@)),
            ..k
        },
        BootState::InitIpc => KernelView {
            state: BootState::StartingServices,
            calls: k.calls.push(log_v("[ OK ] Initialized IPC message queues"@)),
            ..k
        },
        BootState::StartingServices => KernelView {
            state: BootState::Running,
            pids: k.pids + seq![n, (n + 1) as usize, (n + 2) as usize, (n + 3) as usize],
            next_pid: (n + 4) as usize,
            input_pid: Some(n),
            registry: k.registry.insert("input"@, n).insert("display"@, (n + 1) as usize).insert(
                "wm"@,
                (n + 2) as usize,
            ).insert("terminal"@, (n + 3) as usize),
            calls: k.calls + seq![
                log_v("[ OK ] Started Input Server (ps2_mock)"@),
                log_v("[ OK ] Started Display Server (WebGPU)"@),
                log_v("[ OK ] Started Window Manager (kwin_wayland_mock)"@),
                log_v("[ OK ] Started Terminal & Shell"@),
            ],
            ..k
        },
        BootState::Running => k,
    }
}

/// The processes that a boot step starts, after the ones `ps` already
/// running: the file system, or the input, display, window manager and
/// terminal services, with the pids `boot_step` hands out.
pub open spec fn boot_procs(k: KernelView, ps: Seq<ServiceProcess>, qs: Seq<ServiceProcess>) -> bool {
    let n = k.next_pid;
    let l = ps.len() as int;
    match k.state {
        BootState::MountingVfs => qs.len() == l + 1 && qs.take(l) == ps && fresh_vfs(qs[l], n),
        BootState::StartingServices => {
            &&& qs.len() == l + 4
            &&& qs.take(l) == ps
            &&& fresh_input(qs[l], n)
            &&& fresh_display(qs[l + 1], (n + 1) as usize)
            &&& fresh_wm(qs[l + 2], (n + 2) as usize, (n + 1) as usize, k.screen_w, k.screen_h)
            &&& fresh_terminal(qs[l + 3], (n + 3) as usize)
        },
        _ => qs == ps,
    }
}

/// The processes after `ps` in `qs` are terminals just started with their
/// pids.
pub open spec fn new_terminals(ps: Seq<ServiceProcess>, qs: Seq<ServiceProcess>) -> bool {
    &&& ps.len() <= qs.len()
    &&& qs.take(ps.len() as int) == ps
    &&& forall|j: int| ps.len() <= j < qs.len() ==> fresh_terminal(#[trigger] qs[j], qs[j].process_id())
}

proof fn lemma_new_terminals_refl(ps: Seq<ServiceProcess>)
    ensures
        new_terminals(ps, ps),
{
    assert(ps.take(ps.len() as int) =~= ps);
}

proof fn lemma_new_terminals_trans(a: Seq<ServiceProcess>, b: Seq<ServiceProcess>, c: Seq<ServiceProcess>)
    requires
        new_terminals(a, b),
        new_terminals(b, c),
    ensures
        new_terminals(a, c),
{
    assert(c.take(a.len() as int) =~= b.take(a.len() as int));
    assert forall|j: int| a.len() <= j < c.len() implies fresh_terminal(#[trigger] c[j], c[j].process_id()) by {
        if j < b.len() {
            assert(c[j] == b[j]);
        }
    }
}

/// The clock advances; every 60th tick the boot sequence takes a step.
pub open spec fn after_clock(k: KernelView) -> KernelView {
    let k1 = KernelView { ticks: (k.ticks + 1) as u32, ..k };
    if k1.ticks % 60 == 0 {
        boot_step(k1)
    } else {
        k1
    }
}

/// What a scheduler round may change: the mailboxes and the host requests.
pub open spec fn scheduled(a: KernelView, b: KernelView) -> bool {
    b == KernelView { bus: b.bus, calls: b.calls, ..a }
}

/// The program that starts each application other than the terminal.
pub open spec fn app_binary(app: AppKind) -> Seq<char> {
    match app {
        AppKind::Terminal => "terminal"@,
        AppKind::Calculator => "/bin/calc"@,
        AppKind::FileManager => "/bin/fileman"@,
        AppKind::Notepad => "/bin/notepad"@,
        AppKind::ImageViewer => "/bin/imgview"@,
    }
}

/// Running `bin` from the root directory, outside any terminal.
pub open spec fn exec_v(bin: Seq<char>) -> HostView {
    HostView::Execve {
        args: vstd::utf8::encode_utf8(bin).push(0u8),
        cwd: "/"@,
        stdin: None,
        stdout: None,
        terminal_id: 0,
        route_output_to: None,
    }
}

/// Starting a terminal takes the next pid (while pids are left).
pub open spec fn spawn_terminal_v(k: KernelView) -> KernelView {
    if k.next_pid < usize::MAX {
        KernelView { pids: k.pids.push(k.next_pid), next_pid: (k.next_pid + 1) as usize, ..k }
    } else {
        k
    }
}

/// Handling one request addressed to the kernel.
pub open spec fn kernel_request(k: KernelView, p: MessagePayload) -> KernelView {
    match p {
        MessagePayload::SpawnTerminal => spawn_terminal_v(k),
        MessagePayload::SpawnApp { app } => if app == AppKind::Terminal {
            spawn_terminal_v(k)
        } else {
            KernelView { calls: k.calls.push(exec_v(app_binary(app))), ..k }
        },
        MessagePayload::SpawnProcess { bin } => KernelView { calls: k.calls.push(exec_v(bin@)), ..k },
        _ => k,
    }
}

/// Handling `msgs` in order.
pub open spec fn kernel_requests(k: KernelView, msgs: Seq<Message>) -> KernelView
    decreases msgs.len(),
{
    if msgs.len() == 0 {
        k
    } else {
        kernel_request(kernel_requests(k, msgs.drop_last()), msgs.last().payload)
    }
}

/// The title of a window that the host opens for an application.
pub open spec fn app_title(app_type: u32) -> Seq<char> {
    if app_type == 0 {
        "Terminal"@
    } else if app_type == 1 {
        "Calculator"@
    } else if app_type == 2 {
        "File Manager"@
    } else if app_type == 3 {
        "Notepad"@
    } else if app_type == 4 {
        "Image Viewer"@
    } else if app_type == 5 {
        "Piano"@
    } else if app_type == 6 {
        "MIDI Player"@
    } else if app_type == 7 {
        "Task Manager"@
    } else {
        "Window"@
    }
}

/// `s` is strictly increasing and bounded by `bound`.
pub open spec fn fresh_pids(s: Seq<ProcessId>, bound: ProcessId) -> bool {
    &&& forall|i: int, j: int| 0 <= i < j < s.len() ==> s[i] < s[j]
    &&& forall|i: int| 0 <= i < s.len() ==> #[trigger] s[i] < bound
}

/// The kernel with its processes, mailboxes and service registry.
pub struct Kernel {
    ticks: u32,
    state: BootState,
    pm: ProcessManager,
    ipc: IpcBus,
    registry: ServiceRegistry,
    host: HostState,
    input_pid: Option<ProcessId>,
    screen_w: i32,
    screen_h: i32,
    next_app_window_id: u32,
}

impl Kernel {
    pub closed spec fn view(&self) -> KernelView {
        KernelView {
            ticks: self.ticks,
            state: self.state,
            pids: pids_of(self.pm.procs()),
            next_pid: self.pm.next(),
            registry: self.registry@,
            input_pid: self.input_pid,
            screen_w: self.screen_w,
            screen_h: self.screen_h,
            next_app_window_id: self.next_app_window_id,
            bus: self.ipc@,
            calls: host_views(self.host.calls@),
        }
    }

    /// The parts are well formed, and every running process has a pid of
    /// its own, handed out in increasing order.
    pub closed spec fn wf(&self) -> bool {
        &&& self.pm.wf()
        &&& self.registry.wf()
        &&& fresh_pids(pids_of(self.pm.procs()), self.pm.next())
    }

    /// The host clock, as last set.
    pub closed spec fn clock(&self) -> (u64, i64) {
        (self.host.now_ms, self.host.tz_offset_ms)
    }

    /// The running processes, in spawn order.
    pub closed spec fn procs(&self) -> Seq<ServiceProcess> {
        self.pm.procs()
    }

    /// The world that a scheduler round starts from, as the kernel (pid 0)
    /// sees it.
    pub closed spec fn world_at(&self) -> World {
        World {
            pid: 0,
            bus: self.ipc@,
            registry: self.registry@,
            calls: self.host.calls@,
            now_ms: self.host.now_ms,
            tz_offset_ms: self.host.tz_offset_ms,
            next_window_id: self.host.next_window_id,
        }
    }

    fn log(&mut self, text: &str)
        ensures
            final(self).view() == (KernelView { calls: old(self).view().calls.push(log_v(text@)), ..old(self).view() }),
            final(self).wf() == old(self).wf(),
            final(self).clock() == old(self).clock(),
            final(self).procs() == old(self).procs(),
            final(self).world_at() == (World { calls: final(self).world_at().calls, ..old(self).world_at() }),
    {
        let ghost c0 = self.host.calls@;
        let c = HostCall::Log { text: copy_str(text) };
        self.host.calls.push(c);
        assert(host_views(self.host.calls@) =~= host_views(c0).push(host_view(c)));
    }

    /// A kernel that has just been loaded: nothing runs yet, the screen is
    /// taken to be 1024 by 768, and one line is logged.
    pub fn new() -> (k: Self)
        ensures
            k.wf(),
            k.view() == (KernelView {
                ticks: 0,
                state: BootState::Starting,
                pids: Seq::empty(),
                next_pid: 1,
                registry: Map::empty(),
                input_pid: None,
                screen_w: 1024,
                screen_h: 768,
                next_app_window_id: 10000,
                bus: Map::empty(),
                calls: seq![log_v("[KERNEL] Microkernel loaded into memory..."@)],
            }),
            k.clock() == (0u64, 0i64),
    {
        let mut k = Self {
            ticks: 0,
            state: BootState::Starting,
            pm: ProcessManager::new(),
            ipc: IpcBus::new(),
            registry: ServiceRegistry::new(),
            host: HostState::new(),
            input_pid: None,
            screen_w: 1024,
            screen_h: 768,
            next_app_window_id: 10000,
        };
        proof {
            assert(pids_of(k.pm.procs()) =~= Seq::<ProcessId>::empty());
            assert(host_views(k.host.calls@) =~= Seq::<HostView>::empty());
        }
        k.log("[KERNEL] Microkernel loaded into memory...");
        proof {
            assert(k.view().calls =~= seq![log_v("[KERNEL] Microkernel loaded into memory..."@)]);
        }
        k
    }

    /// Ticks so far.
    pub fn ticks(&self) -> (r: u32)
        ensures
            r == self.view().ticks,
    {
        self.ticks
    }

    /// The pid that the next process will get.
    pub fn next_pid(&self) -> (r: ProcessId)
        requires
            self.wf(),
        ensures
            r == self.view().next_pid,
    {
        self.pm.next_pid()
    }

    /// Sets the host clock that processes read during the next ticks.
    pub fn set_clock(&mut self, now_ms: u64, tz_offset_ms: i64)
        ensures
            final(self).view() == old(self).view(),
            final(self).wf() == old(self).wf(),
            final(self).clock() == (now_ms, tz_offset_ms),
            final(self).procs() == old(self).procs(),
    {
        self.host.now_ms = now_ms;
        self.host.tz_offset_ms = tz_offset_ms;
    }

    /// Hands the host every request made since the last call.
    pub fn take_host_calls(&mut self) -> (calls: Vec<HostCall>)
        ensures
            host_views(calls@) == old(self).view().calls,
            final(self).view() == (KernelView { calls: Seq::empty(), ..old(self).view() }),
            final(self).wf() == old(self).wf(),
            final(self).clock() == old(self).clock(),
            final(self).procs() == old(self).procs(),
    {
        let mut calls: Vec<HostCall> = Vec::new();
        std::mem::swap(&mut calls, &mut self.host.calls);
        assert(host_views(self.host.calls@) =~= Seq::<HostView>::empty());
        calls
    }

    fn spawn_vfs(&mut self) -> (pid: ProcessId)
        requires
            old(self).wf(),
            old(self).view().next_pid < usize::MAX,
        ensures
            final(self).wf(),
            pid == old(self).view().next_pid,
            final(self).view() == (KernelView {
                pids: old(self).view().pids.push(pid),
                next_pid: (pid + 1) as usize,
                ..old(self).view()
            }),
            final(self).clock() == old(self).clock(),
            final(self).procs().drop_last() == old(self).procs(),
            final(self).procs().len() == old(self).procs().len() + 1,
            fresh_vfs(final(self).procs().last(), pid),
            final(self).world_at() == old(self).world_at(),
    {
        let ghost ps = self.pm.procs();
        let pid = self.pm.spawn(|pid: ProcessId| -> (p: ServiceProcess)
            ensures
                p.inv(),
                p.process_id() == pid,
                fresh_vfs(p, pid),
            { ServiceProcess::Vfs(VfsService::new(pid)) });
        proof { self.lemma_spawned(ps, pid); }
        pid
    }

    fn spawn_input(&mut self) -> (pid: ProcessId)
        requires
            old(self).wf(),
            old(self).view().next_pid < usize::MAX,
        ensures
            final(self).wf(),
            pid == old(self).view().next_pid,
            final(self).view() == (KernelView {
                pids: old(self).view().pids.push(pid),
                next_pid: (pid + 1) as usize,
                ..old(self).view()
            }),
            final(self).clock() == old(self).clock(),
            final(self).procs().drop_last() == old(self).procs(),
            final(self).procs().len() == old(self).procs().len() + 1,
            fresh_input(final(self).procs().last(), pid),
            final(self).world_at() == old(self).world_at(),
    {
        let ghost ps = self.pm.procs();
        let pid = self.pm.spawn(|pid: ProcessId| -> (p: ServiceProcess)
            ensures
                p.inv(),
                p.process_id() == pid,
                fresh_input(p, pid),
            { ServiceProcess::Input(InputServer::new(pid)) });
        proof { self.lemma_spawned(ps, pid); }
        pid
    }

    fn spawn_display(&mut self) -> (pid: ProcessId)
        requires
            old(self).wf(),
            old(self).view().next_pid < usize::MAX,
        ensures
            final(self).wf(),
            pid == old(self).view().next_pid,
            final(self).view() == (KernelView {
                pids: old(self).view().pids.push(pid),
                next_pid: (pid + 1) as usize,
                ..old(self).view()
            }),
            final(self).clock() == old(self).clock(),
            final(self).procs().drop_last() == old(self).procs(),
            final(self).procs().len() == old(self).procs().len() + 1,
            fresh_display(final(self).procs().last(), pid),
            final(self).world_at() == old(self).world_at(),
    {
        let ghost ps = self.pm.procs();
        let pid = self.pm.spawn(|pid: ProcessId| -> (p: ServiceProcess)
            ensures
                p.inv(),
                p.process_id() == pid,
                fresh_display(p, pid),
            { ServiceProcess::Display(DisplayServer::new(pid)) });
        proof { self.lemma_spawned(ps, pid); }
        pid
    }

    fn spawn_wm(&mut self, display_pid: ProcessId) -> (pid: ProcessId)
        requires
            old(self).wf(),
            old(self).view().next_pid < usize::MAX,
        ensures
            final(self).wf(),
            pid == old(self).view().next_pid,
            final(self).view() == (KernelView {
                pids: old(self).view().pids.push(pid),
                next_pid: (pid + 1) as usize,
                ..old(self).view()
            }),
            final(self).clock() == old(self).clock(),
            final(self).procs().drop_last() == old(self).procs(),
            final(self).procs().len() == old(self).procs().len() + 1,
            fresh_wm(final(self).procs().last(), pid, display_pid, old(self).view().screen_w, old(self).view().screen_h),
            final(self).world_at() == old(self).world_at(),
    {
        let ghost ps = self.pm.procs();
        let w = self.screen_w;
        let h = self.screen_h;
        let pid = self.pm.spawn(move |pid: ProcessId| -> (p: ServiceProcess)
            ensures
                p.inv(),
                p.process_id() == pid,
                fresh_wm(p, pid, display_pid, w, h),
            { ServiceProcess::Wm(WindowManager::new(pid, display_pid, w, h)) });
        proof { self.lemma_spawned(ps, pid); }
        pid
    }

    fn spawn_terminal(&mut self) -> (pid: ProcessId)
        requires
            old(self).wf(),
            old(self).view().next_pid < usize::MAX,
        ensures
            final(self).wf(),
            pid == old(self).view().next_pid,
            final(self).view() == (KernelView {
                pids: old(self).view().pids.push(pid),
                next_pid: (pid + 1) as usize,
                ..old(self).view()
            }),
            final(self).clock() == old(self).clock(),
            final(self).procs().drop_last() == old(self).procs(),
            final(self).procs().len() == old(self).procs().len() + 1,
            fresh_terminal(final(self).procs().last(), pid),
            final(self).world_at() == old(self).world_at(),
    {
        let ghost ps = self.pm.procs();
        let pid = self.pm.spawn(|pid: ProcessId| -> (p: ServiceProcess)
            ensures
                p.inv(),
                p.process_id() == pid,
                fresh_terminal(p, pid),
            { ServiceProcess::Terminal(TerminalProcess::new(pid)) });
        proof { self.lemma_spawned(ps, pid); }
        pid
    }

    proof fn lemma_spawned(&self, ps: Seq<ServiceProcess>, pid: ProcessId)
        requires
            self.pm.procs().drop_last() == ps,
            self.pm.procs().len() == ps.len() + 1,
            self.pm.procs().last().process_id() == pid,
            fresh_pids(pids_of(ps), pid),
            self.pm.next() == pid + 1,
        ensures
            pids_of(self.pm.procs()) == pids_of(ps).push(pid),
            fresh_pids(pids_of(self.pm.procs()), self.pm.next()),
    {
        assert(self.pm.procs() =~= ps.push(self.pm.procs().last()));
        assert(pids_of(self.pm.procs()) =~= pids_of(ps).push(pid));
    }

    /// One step of the boot sequence.
    fn boot(&mut self)
        requires
            old(self).wf(),
            old(self).view().next_pid + 4 < usize::MAX,
        ensures
            final(self).wf(),
            final(self).view() == boot_step(old(self).view()),
            final(self).clock() == old(self).clock(),
            boot_procs(old(self).view(), old(self).procs(), final(self).procs()),
            final(self).world_at() == (World { calls: final(self).world_at().calls, registry: final(self).view().registry, ..old(self).world_at() }),
    {
        let ghost k0 = self.view();
        let ghost p0 = self.procs();
        match self.state {
            BootState::Starting => {
                self.log("MonkeyOS Microkernel v0.1.0");
                self.log("[ OK ] Probing virtual hardware devices");
                self.state = BootState::MountingVfs;
                assert(self.view().calls =~= boot_step(k0).calls);
                assert(self.procs() == p0);
            },
            BootState::MountingVfs => {
                let pid = self.spawn_vfs();
                let ghost p1 = self.procs();
                self.registry.register("vfs", pid);
                self.log("[ OK ] Mounted Root Filesystem (/)");
                self.state = BootState::InitIpc;
                assert(self.procs() == p1);
                assert(p1.take(p0.len() as int) =~= p1.drop_last());
                assert(p1[p0.len() as int] == p1.last());
            },
            BootState::InitIpc => {
                self.log("[ OK ] Initialized IPC message queues");
                self.state = BootState::StartingServices;
                assert(self.procs() == p0);
            },
            BootState::StartingServices => {
                let ghost l = p0.len() as int;
                let input_pid = self.spawn_input();
                let ghost a1 = self.procs();
                self.input_pid = Some(input_pid);
                self.registry.register("input", input_pid);
                self.log("[ OK ] Started Input Server (ps2_mock)");
                let display_pid = self.spawn_display();
                let ghost a2 = self.procs();
                self.registry.register("display", display_pid);
                self.log("[ OK ] Started Display Server (WebGPU)");
                let wm_pid = self.spawn_wm(display_pid);
                let ghost a3 = self.procs();
                self.registry.register("wm", wm_pid);
                self.log("[ OK ] Started Window Manager (kwin_wayland_mock)");
                let terminal_pid = self.spawn_terminal();
                let ghost a4 = self.procs();
                self.registry.register("terminal", terminal_pid);
                self.log("[ OK ] Started Terminal & Shell");
                self.state = BootState::Running;
                assert(self.view().pids =~= boot_step(k0).pids);
                assert(self.view().calls =~= boot_step(k0).calls);
                proof {
                    assert(self.procs() == a4);
                    assert(a4.drop_last() == a3 && a3.drop_last() == a2 && a2.drop_last() == a1 && a1.drop_last() == p0);
                    assert(a4[l] == a1.last());
                    assert(a4[l + 1] == a2.last());
                    assert(a4[l + 2] == a3.last());
                    assert(a4[l + 3] == a4.last());
                    assert(a4.take(l) =~= p0);
                }
            },
            BootState::Running => {},
        }
    }

    /// Runs one time slice of every process.
    fn schedule(&mut self)
        requires
            old(self).wf(),
        ensures
            final(self).wf(),
            scheduled(old(self).view(), final(self).view()),
            final(self).clock() == old(self).clock(),
            exists|ws: Seq<World>|
                round(old(self).procs(), final(self).procs(), ws) && ws[0] == old(self).world_at() && #[trigger] ws.last()
                    == (World { pid: ws.last().pid, ..final(self).world_at() }),
    {
        let mut ipc = IpcBus::new();
        std::mem::swap(&mut ipc, &mut self.ipc);
        let mut host = HostState::new();
        std::mem::swap(&mut host, &mut self.host);
        let mut env = SyscallEnv { pid: 0, ipc, registry: &self.registry, host };
        self.pm.tick_all(&mut env);
        self.ipc = env.ipc;
        self.host = env.host;
    }

    /// Handles every request waiting in the kernel's own mailbox.
    fn handle_requests(&mut self)
        requires
            old(self).wf(),
        ensures
            final(self).wf(),
            final(self).view() == (KernelView {
                bus: bus_with_queue(old(self).view().bus, 0, Seq::empty()),
                ..kernel_requests(old(self).view(), queue_in(old(self).view().bus, 0))
            }),
            final(self).clock() == old(self).clock(),
            new_terminals(old(self).procs(), final(self).procs()),
    {
        let ghost k0 = self.view();
        let ghost m0 = self.ipc@;
        let ghost q0 = queue_in(m0, 0);
        let n = self.ipc.pending(0);
        let mut i: usize = 0;
        assert(q0.skip(0) =~= q0);
        assert(q0.take(0) =~= Seq::<Message>::empty());
        proof {
            if m0.dom().contains(0) {
                assert(bus_with_queue(m0, 0, q0) =~= m0);
            }
            lemma_new_terminals_refl(self.procs());
        }
        while i < n
            invariant
                self.wf(),
                self.clock() == old(self).clock(),
                i <= n,
                n == q0.len(),
                q0 == queue_in(m0, 0),
                self.ipc@ == bus_with_queue(m0, 0, q0.skip(i as int)),
                self.view() == (KernelView { bus: self.ipc@, ..kernel_requests(k0, q0.take(i as int)) }),
                new_terminals(old(self).procs(), self.procs()),
            decreases n - i,
        {
            proof {
                assert(q0.skip(i as int).drop_first() =~= q0.skip(i + 1));
                assert(q0.take(i + 1).drop_last() =~= q0.take(i as int));
                assert(bus_with_queue(m0, 0, q0.skip(i as int)).dom().contains(0));
                assert(bus_receive(bus_with_queue(m0, 0, q0.skip(i as int)), 0) =~= bus_with_queue(m0, 0, q0.skip(i + 1)));
            }
            let ghost pi = self.procs();
            let msg = self.ipc.receive(0);
            match msg {
                Some(msg) => {
                    match msg.payload {
                        MessagePayload::SpawnTerminal => {
                            self.request_terminal();
                        },
                        MessagePayload::SpawnApp { app } => {
                            if app == AppKind::Terminal {
                                self.request_terminal();
                            } else {
                                self.exec(app_binary_exec(app).as_str());
                            }
                        },
                        MessagePayload::SpawnProcess { bin } => {
                            self.exec(bin.as_str());
                        },
                        _ => {},
                    }
                },
                None => {},
            }
            proof {
                if self.procs() == pi {
                    lemma_new_terminals_refl(pi);
                }
                lemma_new_terminals_trans(old(self).procs(), pi, self.procs());
            }
            i = i + 1;
        }
        assert(q0.skip(n as int) =~= Seq::<Message>::empty());
        assert(q0.take(n as int) =~= q0);
    }

    fn request_terminal(&mut self)
        requires
            old(self).wf(),
        ensures
            final(self).wf(),
            final(self).view() == spawn_terminal_v(old(self).view()),
            final(self).clock() == old(self).clock(),
            new_terminals(old(self).procs(), final(self).procs()),
    {
        let ghost p0 = self.procs();
        if self.pm.next_pid() < usize::MAX {
            let pid = self.spawn_terminal();
            proof {
                let p1 = self.procs();
                assert(p1.take(p0.len() as int) =~= p0);
                assert(pids_of(p1).last() == pid);
                assert(p1.last() == p1[p1.len() - 1]);
            }
        } else {
            proof { lemma_new_terminals_refl(p0); }
        }
    }

    fn exec(&mut self, bin: &str)
        requires
            old(self).wf(),
        ensures
            final(self).wf(),
            final(self).view() == (KernelView { calls: old(self).view().calls.push(exec_v(bin@)), ..old(self).view() }),
            final(self).clock() == old(self).clock(),
            final(self).procs() == old(self).procs(),
    {
        let mut args: Vec<u8> = Vec::new();
        push_bytes(&mut args, bin);
        args.push(0);
        let ghost c0 = self.host.calls@;
        let c = HostCall::Execve { args, cwd: copy_str("/"), stdin: None, stdout: None, terminal_id: 0, route_output_to: None };
        self.host.calls.push(c);
        assert(host_views(self.host.calls@) =~= host_views(c0).push(host_view(c)));
    }

    /// Advances the clock (and, every 60 ticks, the boot sequence), runs
    /// one time slice of every process, then handles the requests that
    /// processes addressed to the kernel. Requests to start a terminal are
    /// dropped once every pid has been handed out.
    pub fn tick(&mut self)
        requires
            old(self).wf(),
            old(self).view().ticks < u32::MAX,
            old(self).view().next_pid + 4 < usize::MAX,
        ensures
            final(self).wf(),
            final(self).clock() == old(self).clock(),
            exists|mid: KernelView, before: Seq<ServiceProcess>, after: Seq<ServiceProcess>, ws: Seq<World>|
                #![trigger scheduled(after_clock(old(self).view()), mid), round(before, after, ws)]
                {
                    let k1 = KernelView { ticks: (old(self).view().ticks + 1) as u32, ..old(self).view() };
                    let k2 = after_clock(old(self).view());
                    &&& scheduled(k2, mid)
                    &&& final(self).view() == (KernelView {
                        bus: bus_with_queue(mid.bus, 0, Seq::empty()),
                        ..kernel_requests(mid, queue_in(mid.bus, 0))
                    })
                    &&& if k1.ticks % 60 == 0 { boot_procs(k1, old(self).procs(), before) } else { before == old(self).procs() }
                    &&& round(before, after, ws)
                    &&& new_terminals(after, final(self).procs())
                    &&& ws[0] == (World {
                        pid: 0,
                        bus: k2.bus,
                        registry: k2.registry,
                        calls: ws[0].calls,
                        now_ms: old(self).clock().0,
                        tz_offset_ms: old(self).clock().1,
                        next_window_id: old(self).world_at().next_window_id,
                    })
                    &&& host_views(ws[0].calls) == k2.calls
                    &&& mid.bus == ws.last().bus
                    &&& mid.calls == host_views(ws.last().calls)
                },
    {
        self.ticks = self.ticks + 1;
        let ghost k1 = self.view();
        let ghost p0 = self.procs();
        let ghost w0 = self.world_at();
        if self.ticks % 60 == 0 {
            self.boot();
        }
        let ghost pb = self.procs();
        let ghost wb = self.world_at();
        self.schedule();
        let ghost mid = self.view();
        let ghost pa = self.procs();
        let ghost wa = self.world_at();
        self.handle_requests();
        proof {
            let ws = choose|ws: Seq<World>| round(pb, pa, ws) && ws[0] == wb && #[trigger] ws.last() == (World { pid: ws.last().pid, ..wa });
            assert(round(pb, pa, ws));
            assert(ws.last() == (World { pid: ws.last().pid, ..wa }));
            assert(scheduled(after_clock(old(self).view()), mid));
        }
    }

    fn send_from_kernel(&mut self, receiver: ProcessId, payload: MessagePayload)
        requires
            old(self).wf(),
        ensures
            final(self).wf(),
            final(self).view() == (KernelView {
                bus: bus_send(old(self).view().bus, Message { sender: 0, receiver, payload }),
                ..old(self).view()
            }),
            final(self).clock() == old(self).clock(),
            final(self).procs() == old(self).procs(),
    {
        self.ipc.send(Message { sender: 0, receiver, payload });
    }

    /// Passes a pointer move to the input server, once it runs.
    pub fn push_mouse_move(&mut self, x: i32, y: i32)
        requires
            old(self).wf(),
        ensures
            final(self).wf(),
            final(self).clock() == old(self).clock(),
            final(self).view() == (match old(self).view().input_pid {
                Some(pid) => KernelView {
                    bus: bus_send(old(self).view().bus, Message { sender: 0, receiver: pid, payload: MessagePayload::MouseMove { x, y } }),
                    ..old(self).view()
                },
                None => old(self).view(),
            }),
            final(self).procs() == old(self).procs(),
    {
        if let Some(pid) = self.input_pid {
            self.send_from_kernel(pid, MessagePayload::MouseMove { x, y });
        }
    }

    /// Passes a button press or release to the input server, once it runs.
    pub fn push_mouse_button(&mut self, down: bool)
        requires
            old(self).wf(),
        ensures
            final(self).wf(),
            final(self).clock() == old(self).clock(),
            final(self).view() == (match old(self).view().input_pid {
                Some(pid) => KernelView {
                    bus: bus_send(old(self).view().bus, Message { sender: 0, receiver: pid, payload: MessagePayload::MouseButton { down } }),
                    ..old(self).view()
                },
                None => old(self).view(),
            }),
            final(self).procs() == old(self).procs(),
    {
        if let Some(pid) = self.input_pid {
            self.send_from_kernel(pid, MessagePayload::MouseButton { down });
        }
    }

    /// Passes a wheel movement (the bit pattern of the host's `f32`) to the
    /// input server, once it runs.
    pub fn push_mouse_wheel(&mut self, delta_y_bits: u32)
        requires
            old(self).wf(),
        ensures
            final(self).wf(),
            final(self).clock() == old(self).clock(),
            final(self).view() == (match old(self).view().input_pid {
                Some(pid) => KernelView {
                    bus: bus_send(
                        old(self).view().bus,
                        Message { sender: 0, receiver: pid, payload: MessagePayload::MouseWheel { delta_y_bits } },
                    ),
                    ..old(self).view()
                },
                None => old(self).view(),
            }),
            final(self).procs() == old(self).procs(),
    {
        if let Some(pid) = self.input_pid {
            self.send_from_kernel(pid, MessagePayload::MouseWheel { delta_y_bits });
        }
    }

    /// Passes a key press to the input server, once it runs.
    pub fn push_key_event(&mut self, key_code: u32)
        requires
            old(self).wf(),
        ensures
            final(self).wf(),
            final(self).clock() == old(self).clock(),
            final(self).view() == (match old(self).view().input_pid {
                Some(pid) => KernelView {
                    bus: bus_send(old(self).view().bus, Message { sender: 0, receiver: pid, payload: MessagePayload::KeyPress { key_code } }),
                    ..old(self).view()
                },
                None => old(self).view(),
            }),
            final(self).procs() == old(self).procs(),
    {
        if let Some(pid) = self.input_pid {
            self.send_from_kernel(pid, MessagePayload::KeyPress { key_code });
        }
    }

    /// Records the new screen size and tells the window manager, if one is
    /// registered.
    pub fn push_screen_size(&mut self, w: i32, h: i32)
        requires
            old(self).wf(),
        ensures
            final(self).wf(),
            final(self).clock() == old(self).clock(),
            ({
                let k1 = KernelView { screen_w: w, screen_h: h, ..old(self).view() };
                final(self).view() == (if k1.registry.dom().contains("wm"@) {
                    KernelView {
                        bus: bus_send(
                            k1.bus,
                            Message { sender: 0, receiver: k1.registry["wm"@], payload: MessagePayload::ScreenSizeChanged { w, h } },
                        ),
                        ..k1
                    }
                } else {
                    k1
                })
            }),
            final(self).procs() == old(self).procs(),
    {
        self.screen_w = w;
        self.screen_h = h;
        if let Some(pid) = self.registry.lookup("wm") {
            self.send_from_kernel(pid, MessagePayload::ScreenSizeChanged { w, h });
        }
    }

    /// The pid registered under `name`, if any.
    pub fn lookup_service(&self, name: &str) -> (r: Option<ProcessId>)
        requires
            self.wf(),
        ensures
            r == (if self.view().registry.dom().contains(name@) { Some(self.view().registry[name@]) } else { None }),
    {
        self.registry.lookup(name)
    }

    /// Delivers a message from the host (the kernel's pid) to `receiver`.
    pub fn post(&mut self, receiver: ProcessId, payload: MessagePayload)
        requires
            old(self).wf(),
        ensures
            final(self).wf(),
            final(self).clock() == old(self).clock(),
            final(self).view() == (KernelView {
                bus: bus_send(old(self).view().bus, Message { sender: 0, receiver, payload }),
                ..old(self).view()
            }),
            final(self).procs() == old(self).procs(),
    {
        self.send_from_kernel(receiver, payload);
    }
}

/// The program that starts `app`.
fn app_binary_exec(app: AppKind) -> (r: String)
    ensures
        r@ == app_binary(app),
{
    match app {
        AppKind::Terminal => copy_str("terminal"),
        AppKind::Calculator => copy_str("/bin/calc"),
        AppKind::FileManager => copy_str("/bin/fileman"),
        AppKind::Notepad => copy_str("/bin/notepad"),
        AppKind::ImageViewer => copy_str("/bin/imgview"),
    }
}

/// The title of a window that the host opens for an application.
pub fn app_title_exec(app_type: u32) -> (r: String)
    ensures
        r@ == app_title(app_type),
{
    if app_type == 0 {
        copy_str("Terminal")
    } else if app_type == 1 {
        copy_str("Calculator")
    } else if app_type == 2 {
        copy_str("File Manager")
    } else if app_type == 3 {
        copy_str("Notepad")
    } else if app_type == 4 {
        copy_str("Image Viewer")
    } else if app_type == 5 {
        copy_str("Piano")
    } else if app_type == 6 {
        copy_str("MIDI Player")
    } else if app_type == 7 {
        copy_str("Task Manager")
    } else {
        copy_str("Window")
    }
}

/// A character written by a program: it goes to the registered terminal
/// (to pid 0 when none is registered), as its low byte.
pub fn kernel_wasi_print_char(kernel: &mut Kernel, term_id: u32, c: u32)
    requires
        old(kernel).wf(),
    ensures
        final(kernel).wf(),
        final(kernel).clock() == old(kernel).clock(),
        ({
            let k = old(kernel).view();
            let to = if k.registry.dom().contains("terminal"@) { k.registry["terminal"@] } else { 0 };
            final(kernel).view() == (KernelView {
                bus: bus_send(k.bus, Message { sender: 0, receiver: to, payload: MessagePayload::WasiPrintChar { id: term_id, c: (c % 256) as u8 } }),
                ..k
            })
        }),
        final(kernel).procs() == old(kernel).procs(),
{
    let term_pid = match kernel.registry.lookup("terminal") {
        Some(p) => p,
        None => 0,
    };
    let b = (c % 256) as u8;
    kernel.send_from_kernel(term_pid, MessagePayload::WasiPrintChar { id: term_id, c: b });
}

/// Asks the window manager for a window for a host application; window
/// ids for these start at 10000 and wrap around. Returns the id, or 0 when
/// no window manager is registered.
pub fn kernel_create_window(kernel: &mut Kernel, x: i32, y: i32, w: i32, h: i32, app_type: u32) -> (id: u32)
    requires
        old(kernel).wf(),
    ensures
        final(kernel).wf(),
        final(kernel).clock() == old(kernel).clock(),
        ({
            let k = old(kernel).view();
            if k.registry.dom().contains("wm"@) {
                &&& id == k.next_app_window_id
                &&& exists|title: String|
                    title@ == app_title(app_type) && #[trigger] final(kernel).view() == (KernelView {
                        next_app_window_id: vstd::wrapping::u32_specs::wrapping_add(k.next_app_window_id, 1),
                        bus: bus_send(
                            k.bus,
                            Message {
                                sender: 0,
                                receiver: k.registry["wm"@],
                                payload: MessagePayload::CreateWindow { id, x, y, w, h, title, owner: 0 },
                            },
                        ),
                        ..k
                    })
            } else {
                &&& id == 0
                &&& final(kernel).view() == k
            }
        }),
        final(kernel).procs() == old(kernel).procs(),
{
    let title = app_title_exec(app_type);
    match kernel.registry.lookup("wm") {
        Some(wm_pid) => {
            let id = kernel.next_app_window_id;
            kernel.next_app_window_id = id.wrapping_add(1);
            let ghost t = title;
            kernel.send_from_kernel(wm_pid, MessagePayload::CreateWindow { id, x, y, w, h, title, owner: 0 });
            id
        },
        None => 0,
    }
}

/// No two running processes share a pid, and every pid is below the
/// one the next spawn hands out.
pub proof fn law_pids_unique(k: &Kernel)
    requires
        k.wf(),
    ensures
        forall|i: int, j: int| 0 <= i < j < k.view().pids.len() ==> k.view().pids[i] != k.view().pids[j],
        forall|i: int| 0 <= i < k.view().pids.len() ==> #[trigger] k.view().pids[i] < k.view().next_pid,
{
}

/// Once the services have been started, the names `input`, `display`,
/// `wm` and `terminal` resolve to four new, distinct processes, the input
/// server receives the pointer and key events, and every name registered
/// before (such as `vfs`) still resolves as it did.
pub proof fn law_services_registered(k: KernelView, name: Seq<char>)
    requires
        k.state == BootState::StartingServices,
        k.next_pid + 4 < usize::MAX,
    ensures
        ({
            let b = boot_step(k);
            let n = k.next_pid;
            &&& b.state == BootState::Running
            &&& b.registry["input"@] == n
            &&& b.registry["display"@] == n + 1
            &&& b.registry["wm"@] == n + 2
            &&& b.registry["terminal"@] == n + 3
            &&& b.input_pid == Some(n)
            &&& b.pids == k.pids + seq![n, (n + 1) as usize, (n + 2) as usize, (n + 3) as usize]
            &&& (name != "input"@ && name != "display"@ && name != "wm"@ && name != "terminal"@ && k.registry.dom().contains(name))
                ==> b.registry.dom().contains(name) && b.registry[name] == k.registry[name]
        }),
{
    reveal_strlit("input");
    reveal_strlit("display");
    reveal_strlit("wm");
    reveal_strlit("terminal");
    let n = k.next_pid;
    assert("input"@.len() == 5);
    assert("display"@.len() == 7);
    assert("wm"@.len() == 2);
    assert("terminal"@.len() == 8);
    let b = boot_step(k);
    assert(b.registry["input"@] == n);
    assert(b.registry["display"@] == n + 1);
    assert(b.registry["wm"@] == n + 2);
}

/// The boot sequence ends in `Running` and stays there: later ticks change
/// nothing through it.
pub proof fn law_running_is_stable(k: KernelView)
    requires
        k.state == BootState::Running,
    ensures
        boot_step(k) == k,
{
}

/// Four boot steps take a freshly loaded kernel to `Running`, with the five
/// services registered.
pub proof fn law_boot_completes(k: KernelView)
    requires
        k.state == BootState::Starting,
        k.next_pid + 5 < usize::MAX,
    ensures
        ({
            let b = boot_step(boot_step(boot_step(boot_step(k))));
            &&& b.state == BootState::Running
            &&& b.registry.dom().contains("vfs"@)
            &&& b.registry.dom().contains("input"@)
            &&& b.registry.dom().contains("display"@)
            &&& b.registry.dom().contains("wm"@)
            &&& b.registry.dom().contains("terminal"@)
            &&& b.pids.len() == k.pids.len() + 5
        }),
{
    reveal_strlit("vfs");
    reveal_strlit("input");
    reveal_strlit("display");
    reveal_strlit("wm");
    reveal_strlit("terminal");
}


impl Default for Kernel {
    /// A kernel that has just been loaded, as `new` makes it.
    fn default() -> (k: Self)
        ensures
            k.wf(),
            k.view() == (KernelView {
                ticks: 0,
                state: BootState::Starting,
                pids: Seq::empty(),
                next_pid: 1,
                registry: Map::empty(),
                input_pid: None,
                screen_w: 1024,
                screen_h: 768,
                next_app_window_id: 10000,
                bus: Map::empty(),
                calls: seq![log_v("[KERNEL] Microkernel loaded into memory..."@)],
            }),
            k.clock() == (0u64, 0i64),
    {
        Self::new()
    }
}

} // verus!
