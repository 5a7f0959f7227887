//! Processes and the scheduler that runs them once per kernel tick.

use crate::ipc::ProcessId;
use crate::services::display::DisplayServer;
use crate::services::input::InputServer;
use crate::services::terminal::TerminalProcess;
use crate::services::vfs::VfsService;
use crate::services::wm::WindowManager;
use crate::sys::{SyscallEnv, World};
use vstd::prelude::*;

verus! {

/// A process scheduled by the kernel.
pub trait Process: Sized {
    /// What the process keeps true of its own state between slices.
    spec fn inv(&self) -> bool;

    /// The pid the process was created with.
    spec fn process_id(&self) -> ProcessId;

    /// What one time slice does: from the world it starts in, to the
    /// process and the world it leaves behind.
    spec fn slice(&self, before: World, after: Self, after_world: World) -> bool;

    /// Its pid.
    fn id(&self) -> (r: ProcessId)
        ensures
            r == self.process_id(),
    ;

    /// A short human-readable name.
    fn name(&self) -> &str;

    /// Runs one time slice; `false` means that the process has exited.
    fn tick(&mut self, env: &mut SyscallEnv) -> (alive: bool)
        requires
            old(env).wf(),
            old(self).inv(),
        ensures
            final(self).inv(),
            old(self).slice(old(env).world(), *final(self), final(env).world()),
            final(self).process_id() == old(self).process_id(),
            final(env).wf(),
            final(env).pid == old(env).pid,
            final(env).registry == old(env).registry,
            final(env).host.now_ms == old(env).host.now_ms,
            final(env).host.tz_offset_ms == old(env).host.tz_offset_ms,
    ;
}

/// The name each kind of service goes by.
pub open spec fn service_name(p: ServiceProcess) -> Seq<char> {
    match p {
        ServiceProcess::Vfs(_) => "vfs_server"@,
        ServiceProcess::Input(_) => "input_server"@,
        ServiceProcess::Display(_) => "display_server"@,
        ServiceProcess::Wm(_) => "window_manager"@,
        ServiceProcess::Terminal(_) => "terminal"@,
    }
}

/// The kinds of process the kernel runs.
pub enum ServiceProcess {
    Vfs(VfsService),
    Input(InputServer),
    Display(DisplayServer),
    Wm(WindowManager),
    Terminal(TerminalProcess),
}

impl Process for ServiceProcess {
    open spec fn inv(&self) -> bool {
        match self {
            ServiceProcess::Vfs(p) => p.inv(),
            ServiceProcess::Input(p) => p.inv(),
            ServiceProcess::Display(p) => p.inv(),
            ServiceProcess::Wm(p) => p.inv(),
            ServiceProcess::Terminal(p) => p.inv(),
        }
    }

    open spec fn slice(&self, before: World, after: Self, after_world: World) -> bool {
        match (*self, after) {
            (ServiceProcess::Vfs(p), ServiceProcess::Vfs(q)) => p.slice(before, q, after_world),
            (ServiceProcess::Input(p), ServiceProcess::Input(q)) => p.slice(before, q, after_world),
            (ServiceProcess::Display(p), ServiceProcess::Display(q)) => p.slice(before, q, after_world),
            (ServiceProcess::Wm(p), ServiceProcess::Wm(q)) => p.slice(before, q, after_world),
            (ServiceProcess::Terminal(p), ServiceProcess::Terminal(q)) => p.slice(before, q, after_world),
            _ => false,
        }
    }

    open spec fn process_id(&self) -> ProcessId {
        match self {
            ServiceProcess::Vfs(p) => p.process_id(),
            ServiceProcess::Input(p) => p.process_id(),
            ServiceProcess::Display(p) => p.process_id(),
            ServiceProcess::Wm(p) => p.process_id(),
            ServiceProcess::Terminal(p) => p.process_id(),
        }
    }

    fn id(&self) -> (r: ProcessId) {
        match self {
            ServiceProcess::Vfs(p) => p.id(),
            ServiceProcess::Input(p) => p.id(),
            ServiceProcess::Display(p) => p.id(),
            ServiceProcess::Wm(p) => p.id(),
            ServiceProcess::Terminal(p) => p.id(),
        }
    }

    fn name(&self) -> (r: &str)
        ensures
            r@ == service_name(*self),
    {
        match self {
            ServiceProcess::Vfs(p) => p.name(),
            ServiceProcess::Input(p) => p.name(),
            ServiceProcess::Display(p) => p.name(),
            ServiceProcess::Wm(p) => p.name(),
            ServiceProcess::Terminal(p) => p.name(),
        }
    }

    /// Every service keeps running.
    fn tick(&mut self, env: &mut SyscallEnv) -> (alive: bool)
        ensures
            alive,
    {
        match self {
            ServiceProcess::Vfs(p) => p.tick(env),
            ServiceProcess::Input(p) => p.tick(env),
            ServiceProcess::Display(p) => p.tick(env),
            ServiceProcess::Wm(p) => p.tick(env),
            ServiceProcess::Terminal(p) => p.tick(env),
        }
    }
}

/// The processes `ps` ran one slice each, in order, and became `qs`:
/// `ws[i]` is the world before the slice of `ps[i]` (which runs under its
/// own pid) and `ws[i + 1]` the world after it.
pub open spec fn round(ps: Seq<ServiceProcess>, qs: Seq<ServiceProcess>, ws: Seq<World>) -> bool {
    &&& qs.len() == ps.len()
    &&& ws.len() == ps.len() + 1
    &&& forall|i: int| #![trigger qs[i]] 0 <= i < ps.len() ==> ran(ps[i], ws[i], qs[i], ws[i + 1])
}

/// `p` ran one slice under its own pid, from `w` to `q` and `w2`.
pub open spec fn ran(p: ServiceProcess, w: World, q: ServiceProcess, w2: World) -> bool {
    p.slice(World { pid: p.process_id(), ..w }, q, w2)
}

/// `p` is a file-system service just started with pid `pid`.
pub open spec fn fresh_vfs(p: ServiceProcess, pid: ProcessId) -> bool {
    p matches ServiceProcess::Vfs(v) && v.pid() == pid
}

/// `p` is an input server just started with pid `pid`.
pub open spec fn fresh_input(p: ServiceProcess, pid: ProcessId) -> bool {
    p matches ServiceProcess::Input(v) && v.pid() == pid
}

/// `p` is a display server just started with pid `pid`.
pub open spec fn fresh_display(p: ServiceProcess, pid: ProcessId) -> bool {
    p matches ServiceProcess::Display(v) && v.pid() == pid
}

/// `p` is a window manager just started with pid `pid`, drawing through
/// `display` on a `w` by `h` screen.
pub open spec fn fresh_wm(p: ServiceProcess, pid: ProcessId, display: ProcessId, w: i32, h: i32) -> bool {
    p matches ServiceProcess::Wm(m) && m@ == crate::services::wm::model::wm_initial(pid, display, w, h)
}

/// `p` is a terminal just started with pid `pid`.
pub open spec fn fresh_terminal(p: ServiceProcess, pid: ProcessId) -> bool {
    p matches ServiceProcess::Terminal(t) && t@ == crate::services::terminal::process::term_initial(pid)
}

/// The running processes, in the order in which they were spawned.
pub struct ProcessManager {
    processes: Vec<ServiceProcess>,
    next_pid: ProcessId,
}

/// The pids of `ps`, in order.
pub open spec fn pids_of(ps: Seq<ServiceProcess>) -> Seq<ProcessId> {
    ps.map_values(|p: ServiceProcess| p.process_id())
}

impl ProcessManager {
    /// Every process keeps its own invariant, and pids are handed out from
    /// a counter that starts at 1.
    pub closed spec fn wf(&self) -> bool {
        &&& self.next_pid >= 1
        &&& forall|i: int| 0 <= i < self.processes@.len() ==> (#[trigger] self.processes@[i]).inv()
    }

    /// The running processes.
    pub closed spec fn procs(&self) -> Seq<ServiceProcess> {
        self.processes@
    }

    /// The pid that the next spawn hands out.
    pub closed spec fn next(&self) -> ProcessId {
        self.next_pid
    }

    /// No processes; the first pid handed out is 1 (0 is the kernel).
    pub fn new() -> (pm: Self)
        ensures
            pm.wf(),
            pm.procs() == Seq::<ServiceProcess>::empty(),
            pm.next() == 1,
    {
        Self { processes: Vec::new(), next_pid: 1 }
    }

    /// The pid that the next spawn hands out.
    pub fn next_pid(&self) -> (r: ProcessId)
        ensures
            r == self.next(),
    {
        self.next_pid
    }

    /// Hands out the next pid, builds the process with it and starts
    /// running it after the others.
    pub fn spawn<F: FnOnce(ProcessId) -> ServiceProcess>(&mut self, constructor: F) -> (pid: ProcessId)
        requires
            old(self).wf(),
            old(self).next() < usize::MAX,
            call_requires(constructor, (old(self).next(),)),
            forall|p: ServiceProcess| call_ensures(constructor, (old(self).next(),), p) ==> p.inv(),
        ensures
            final(self).wf(),
            pid == old(self).next(),
            final(self).next() == old(self).next() + 1,
            final(self).procs().len() == old(self).procs().len() + 1,
            final(self).procs().drop_last() == old(self).procs(),
            call_ensures(constructor, (pid,), final(self).procs().last()),
            spawn_step(*old(self), *final(self), pid),
    {
        let pid = self.next_pid;
        self.next_pid = self.next_pid + 1;
        let process = constructor(pid);
        self.processes.push(process);
        assert(self.processes@.drop_last() =~= old(self).processes@);
        pid
    }

    /// Runs one time slice of every process, in spawn order, and keeps
    /// those that are still running (every service is).
    pub fn tick_all(&mut self, env: &mut SyscallEnv)
        requires
            old(self).wf(),
            old(env).wf(),
        ensures
            final(self).wf(),
            final(env).wf(),
            final(env).registry == old(env).registry,
            final(env).host.now_ms == old(env).host.now_ms,
            final(env).host.tz_offset_ms == old(env).host.tz_offset_ms,
            final(self).next() == old(self).next(),
            pids_of(final(self).procs()) == pids_of(old(self).procs()),
            exists|ws: Seq<World>|
                round(old(self).procs(), final(self).procs(), ws) && ws[0] == old(env).world() && #[trigger] ws.last()
                    == final(env).world(),
    {
        let mut pending: Vec<ServiceProcess> = Vec::new();
        std::mem::swap(&mut pending, &mut self.processes);
        let ghost all = pending@;
        let mut kept: Vec<ServiceProcess> = Vec::new();
        let mut k: usize = 0;
        let n = pending.len();
        let ghost mut ws: Seq<World> = seq![env.world()];
        assert(all.skip(0) =~= all);
        assert(all.take(0) =~= Seq::<ServiceProcess>::empty());
        while pending.len() > 0
            invariant
                env.wf(),
                env.registry == old(env).registry,
                env.host.now_ms == old(env).host.now_ms,
                env.host.tz_offset_ms == old(env).host.tz_offset_ms,
                self.next_pid == old(self).next_pid,
                self.next_pid >= 1,
                n == all.len(),
                k <= n,
                pending@ == all.skip(k as int),
                kept@.len() == k,
                forall|i: int| 0 <= i < all.len() ==> (#[trigger] all[i]).inv(),
                forall|i: int| 0 <= i < k ==> (#[trigger] kept@[i]).inv(),
                forall|i: int| 0 <= i < k ==> (#[trigger] kept@[i]).process_id() == all[i].process_id(),
                round(all.take(k as int), kept@, ws),
                ws[0] == old(env).world(),
                ws.last() == env.world(),
            decreases pending@.len(),
        {
            let mut p = pending.remove(0);
            assert(p == all[k as int]);
            env.pid = p.id();
            let ghost before = env.world();
            let ghost p0 = p;
            assert(before == World { pid: all[k as int].process_id(), ..ws.last() });
            let alive = p.tick(env);
            let ghost kept0 = kept@;
            if alive {
                kept.push(p);
            }
            proof {
                let ws1 = ws.push(env.world());
                let t = all.take(k + 1);
                assert(t.drop_last() =~= all.take(k as int));
                assert(kept@ == kept0.push(p));
                assert forall|i: int| #![trigger kept@[i]] 0 <= i < t.len() implies ran(t[i], ws1[i], kept@[i], ws1[i + 1]) by {
                    if i < k {
                        assert(t[i] == all.take(k as int)[i]);
                        assert(ws1[i] == ws[i]);
                        assert(ws1[i + 1] == ws[i + 1]);
                        assert(kept@[i] == kept0[i]);
                    } else {
                        assert(t[i] == p0);
                        assert(ws1[i] == ws.last());
                    }
                }
                ws = ws1;
            }
            assert(pending@ =~= all.skip(k + 1));
            k = k + 1;
        }
        assert(pids_of(kept@) =~= pids_of(all));
        assert(all.take(n as int) =~= all);
        self.processes = kept;
    }
}


impl Default for ProcessManager {
    /// No processes, as `new` makes it.
    fn default() -> (pm: Self)
        ensures
            pm.wf(),
            pm.procs() == Seq::<ServiceProcess>::empty(),
            pm.next() == 1,
    {
        Self::new()
    }
}

/// One spawn leads from manager `a` to manager `b` and hands out `pid`, as
/// `ProcessManager::spawn` states it.
pub open spec fn spawn_step(a: ProcessManager, b: ProcessManager, pid: ProcessId) -> bool {
    &&& pid == a.next()
    &&& b.next() == a.next() + 1
    &&& b.procs().len() == a.procs().len() + 1
    &&& b.procs().drop_last() == a.procs()
}

proof fn lemma_spawns_prefix(ms: Seq<ProcessManager>, pids: Seq<ProcessId>, j: int)
    requires
        ms.len() == pids.len() + 1,
        ms[0].procs() == Seq::<ServiceProcess>::empty(),
        ms[0].next() == 1,
        forall|i: int| 0 <= i < pids.len() ==> spawn_step(ms[i], #[trigger] ms[i + 1], pids[i]),
        0 <= j <= pids.len(),
    ensures
        ms[j].next() == j + 1,
        ms[j].procs().len() == j,
        forall|i: int| 0 <= i < j ==> ms[j].procs()[i] == (#[trigger] ms[i + 1]).procs().last(),
    decreases j,
{
    if j > 0 {
        lemma_spawns_prefix(ms, pids, j - 1);
        assert(spawn_step(ms[j - 1], ms[j], pids[j - 1]));
        assert forall|i: int| 0 <= i < j implies ms[j].procs()[i] == (#[trigger] ms[i + 1]).procs().last() by {
            if i < j - 1 {
                assert(ms[j].procs().drop_last()[i] == ms[j].procs()[i]);
                assert(ms[j - 1].procs()[i] == ms[i + 1].procs().last());
            }
        }
    }
}

/// Spawning k processes in a row on a new manager hands out the pids 1 to
/// k in that order, and leaves the processes in spawn order, the one made
/// by the i-th spawn at position i - 1, with k + 1 as the next pid.
pub proof fn law_spawns_from_new(ms: Seq<ProcessManager>, pids: Seq<ProcessId>)
    requires
        ms.len() == pids.len() + 1,
        ms[0].procs() == Seq::<ServiceProcess>::empty(),
        ms[0].next() == 1,
        forall|i: int| 0 <= i < pids.len() ==> spawn_step(ms[i], #[trigger] ms[i + 1], pids[i]),
    ensures
        forall|i: int| 0 <= i < pids.len() ==> #[trigger] pids[i] == i + 1,
        ms.last().next() == pids.len() + 1,
        ms.last().procs().len() == pids.len(),
        forall|i: int| 0 <= i < pids.len() ==> ms.last().procs()[i] == (#[trigger] ms[i + 1]).procs().last(),
{
    lemma_spawns_prefix(ms, pids, pids.len() as int);
    assert forall|i: int| 0 <= i < pids.len() implies #[trigger] pids[i] == i + 1 by {
        lemma_spawns_prefix(ms, pids, i);
        assert(spawn_step(ms[i], ms[i + 1], pids[i]));
    }
}

} // verus!
