//! The file system service: it acknowledges requests and logs them.

use crate::host::HostCall;
use crate::ipc::{bus_receive, bus_send_all, bus_with_queue, lemma_receive_through_sends, queue_in, ProcessId};
use crate::process::Process;
use crate::sys::{SyscallEnv, World};
use crate::text::copy_str;
use vstd::prelude::*;

verus! {

pub struct VfsService {
    pid: ProcessId,
}

impl VfsService {
    pub fn new(pid: ProcessId) -> (s: Self)
        ensures
            s.pid() == pid,
    {
        Self { pid }
    }

    pub closed spec fn pid(&self) -> ProcessId {
        self.pid
    }
}

impl Process for VfsService {
    open spec fn slice(&self, b: World, after: Self, a: World) -> bool {
        &&& after == *self
        &&& a == (World { bus: bus_with_queue(b.bus, b.pid, Seq::empty()), calls: a.calls, ..b })
        &&& a.calls.len() == b.calls.len() + queue_in(b.bus, b.pid).len()
        &&& forall|i: int| 0 <= i < b.calls.len() ==> a.calls[i] == b.calls[i]
        &&& forall|i: int| b.calls.len() <= i < a.calls.len() ==> (#[trigger] a.calls[i] matches HostCall::Log { text } && text@ == "[VFS] Received request"@)
    }

    open spec fn process_id(&self) -> ProcessId {
        self.pid()
    }

    open spec fn inv(&self) -> bool {
        true
    }

    fn id(&self) -> (r: ProcessId)
        ensures
            r == self.pid(),
    {
        self.pid
    }

    fn name(&self) -> (r: &str)
        ensures
            r@ == "vfs_server"@,
    {
        "vfs_server"
    }

    /// Takes every request waiting at the start of the slice and logs one
    /// line for each.
    fn tick(&mut self, env: &mut SyscallEnv) -> (alive: bool)
        ensures
            alive,
            *final(self) == *old(self),
            final(env).ipc@ == bus_with_queue(old(env).ipc@, old(env).pid, Seq::empty()),
            final(env).host.calls@.len() == old(env).host.calls@.len() + queue_in(
                old(env).ipc@,
                old(env).pid,
            ).len(),
            forall|i: int| 0 <= i < old(env).host.calls@.len() ==> final(env).host.calls@[i] == old(env).host.calls@[i],
            forall|i: int|
                old(env).host.calls@.len() <= i < final(env).host.calls@.len() ==> (
                #[trigger] final(env).host.calls@[i] matches HostCall::Log { text }
                    && text@ == "[VFS] Received request"@),
            final(env).host.now_ms == old(env).host.now_ms,
            final(env).host.tz_offset_ms == old(env).host.tz_offset_ms,
            final(env).host.next_window_id == old(env).host.next_window_id,
    {
        let n = env.ipc.pending(env.pid);
        let ghost m0 = env.ipc@;
        let ghost q0 = queue_in(m0, env.pid);
        let ghost c0 = env.host.calls@;
        let mut k: usize = 0;
        assert(q0.skip(0) =~= q0);
        assert(bus_send_all(bus_with_queue(m0, env.pid, q0), Seq::empty()) == bus_with_queue(m0, env.pid, q0));
        proof {
            if q0.len() == 0 {
                assert(bus_with_queue(m0, env.pid, q0) =~= m0);
            }
        }
        while k < n
            invariant
                env.wf(),
                env.pid == old(env).pid,
                env.registry == old(env).registry,
                k <= n,
                n == q0.len(),
                q0 == queue_in(m0, env.pid),
                env.ipc@ == bus_with_queue(m0, env.pid, q0.skip(k as int)),
                env.host.calls@.len() == c0.len() + k,
                forall|i: int| 0 <= i < c0.len() ==> env.host.calls@[i] == c0[i],
                forall|i: int|
                    c0.len() <= i < env.host.calls@.len() ==> (#[trigger] env.host.calls@[i] matches HostCall::Log { text }
                        && text@ == "[VFS] Received request"@),
                env.host.now_ms == old(env).host.now_ms,
                env.host.tz_offset_ms == old(env).host.tz_offset_ms,
                env.host.next_window_id == old(env).host.next_window_id,
            decreases n - k,
        {
            proof {
                lemma_receive_through_sends(m0, env.pid, q0.skip(k as int), Seq::empty());
                assert(q0.skip(k as int).drop_first() =~= q0.skip(k + 1));
            }
            let _msg = env.recv_msg();
            env.host_call(HostCall::Log { text: copy_str("[VFS] Received request") });
            k = k + 1;
        }
        assert(q0.skip(n as int) =~= Seq::empty());
        true
    }
}

} // verus!
