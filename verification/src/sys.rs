//! Name service for system services, and the view a process has of the
//! kernel while it runs.

use crate::host::{HostCall, HostState};
use crate::ipc::{bus_receive, bus_receive_result, bus_send, queue_in, IpcBus, Message, MessagePayload, ProcessId};
use crate::text::{copy_str, str_eq};
use vstd::prelude::*;

verus! {

/// Maps service names to the pid of the process serving them.
pub struct ServiceRegistry {
    names: Vec<String>,
    pids: Vec<ProcessId>,
}

impl ServiceRegistry {
    /// Names and pids line up, and no name is registered twice.
    pub closed spec fn wf(&self) -> bool {
        &&& self.names@.len() == self.pids@.len()
        &&& forall|i: int, j: int|
            0 <= i < j < self.names@.len() ==> self.names@[i]@ != self.names@[j]@
    }

    /// The pid registered under each name.
    pub closed spec fn view(&self) -> Map<Seq<char>, ProcessId> {
        Map::new(
            |n: Seq<char>| exists|i: int| 0 <= i < self.names@.len() && self.names@[i]@ == n,
            |n: Seq<char>|
                self.pids@[choose|i: int| 0 <= i < self.names@.len() && self.names@[i]@ == n],
        )
    }

    proof fn lemma_view_at(&self, i: int)
        requires
            self.wf(),
            0 <= i < self.names@.len(),
        ensures
            self@.dom().contains(self.names@[i]@),
            self@[self.names@[i]@] == self.pids@[i],
    {
        let n = self.names@[i]@;
        assert(exists|k: int| 0 <= k < self.names@.len() && self.names@[k]@ == n);
        let k = choose|k: int| 0 <= k < self.names@.len() && self.names@[k]@ == n;
        if k != i {
            if k < i {
                assert(self.names@[k]@ != self.names@[i]@);
            } else {
                assert(self.names@[i]@ != self.names@[k]@);
            }
        }
    }

    /// An empty registry.
    pub fn new() -> (r: Self)
        ensures
            r.wf(),
            r@ == Map::<Seq<char>, ProcessId>::empty(),
    {
        let r = Self { names: Vec::new(), pids: Vec::new() };
        assert(r@ =~= Map::<Seq<char>, ProcessId>::empty());
        r
    }

    fn find(&self, name: &str) -> (r: Option<usize>)
        requires
            self.wf(),
        ensures
            match r {
                Some(i) => i < self.names@.len() && self.names@[i as int]@ == name@,
                None => forall|j: int| 0 <= j < self.names@.len() ==> self.names@[j]@ != name@,
            },
    {
        let mut i: usize = 0;
        while i < self.names.len()
            invariant
                self.wf(),
                i <= self.names@.len(),
                forall|j: int| 0 <= j < i ==> self.names@[j]@ != name@,
            decreases self.names@.len() - i,
        {
            if str_eq(self.names[i].as_str(), name) {
                return Some(i);
            }
            i = i + 1;
        }
        None
    }

    /// Registers `pid` under `name`, replacing any earlier registration.
    pub fn register(&mut self, name: &str, pid: ProcessId)
        requires
            old(self).wf(),
        ensures
            final(self).wf(),
            final(self)@ == old(self)@.insert(name@, pid),
    {
        let ghost old_self = *self;
        match self.find(name) {
            Some(i) => {
                self.pids.set(i, pid);
                proof {
                    assert forall|n: Seq<char>| #[trigger] self@.dom().contains(n) <==>
                        old_self@.insert(name@, pid).dom().contains(n) by {
                        if old_self@.dom().contains(n) {
                            let k = choose|k: int| 0 <= k < old_self.names@.len() && old_self.names@[k]@ == n;
                            assert(self.names@[k]@ == n);
                        }
                        if n == name@ {
                            assert(self.names@[i as int]@ == n);
                        }
                    }
                    assert forall|n: Seq<char>| #[trigger] self@.dom().contains(n) implies
                        self@[n] == old_self@.insert(name@, pid)[n] by {
                        let k = choose|k: int| 0 <= k < self.names@.len() && self.names@[k]@ == n;
                        self.lemma_view_at(k);
                        old_self.lemma_view_at(k);
                        if n == name@ {
                            self.lemma_view_at(i as int);
                        }
                    }
                    assert(self@ =~= old_self@.insert(name@, pid));
                }
            },
            None => {
                self.names.push(copy_str(name));
                self.pids.push(pid);
                proof {
                    let n0 = old_self.names@.len() as int;
                    self.lemma_view_at(n0);
                    assert forall|n: Seq<char>| #[trigger] self@.dom().contains(n) <==>
                        old_self@.insert(name@, pid).dom().contains(n) by {
                        if self@.dom().contains(n) && n != name@ {
                            let k = choose|k: int| 0 <= k < self.names@.len() && self.names@[k]@ == n;
                            assert(k < n0);
                            assert(old_self.names@[k]@ == n);
                        }
                        if old_self@.dom().contains(n) {
                            let k = choose|k: int| 0 <= k < old_self.names@.len() && old_self.names@[k]@ == n;
                            assert(self.names@[k]@ == n);
                        }
                    }
                    assert forall|n: Seq<char>| #[trigger] self@.dom().contains(n) implies
                        self@[n] == old_self@.insert(name@, pid)[n] by {
                        if n != name@ {
                            let k = choose|k: int| 0 <= k < self.names@.len() && self.names@[k]@ == n;
                            assert(k < n0);
                            self.lemma_view_at(k);
                            old_self.lemma_view_at(k);
                        }
                    }
                    assert(self@ =~= old_self@.insert(name@, pid));
                }
            },
        }
    }

    /// The pid registered under `name`, if any.
    pub fn lookup(&self, name: &str) -> (r: Option<ProcessId>)
        requires
            self.wf(),
        ensures
            r == (if self@.dom().contains(name@) { Some(self@[name@]) } else { None::<ProcessId> }),
    {
        match self.find(name) {
            Some(i) => {
                proof { self.lemma_view_at(i as int); }
                Some(self.pids[i])
            },
            None => None,
        }
    }
}

/// A name that was just registered is found under that pid.
pub proof fn law_lookup_after_register(m: Map<Seq<char>, ProcessId>, name: Seq<char>, pid: ProcessId)
    ensures
        m.insert(name, pid).dom().contains(name),
        m.insert(name, pid)[name] == pid,
{
}

/// Registering one name leaves what every other name resolves to unchanged.
pub proof fn law_register_keeps_other_names(
    m: Map<Seq<char>, ProcessId>,
    name: Seq<char>,
    pid: ProcessId,
    other: Seq<char>,
)
    requires
        other != name,
    ensures
        m.insert(name, pid).dom().contains(other) == m.dom().contains(other),
        m.dom().contains(other) ==> m.insert(name, pid)[other] == m[other],
{
}

/// The registry after registering each `(name, pid)` of `ops` in turn on
/// an empty one.
pub open spec fn registered(ops: Seq<(Seq<char>, ProcessId)>) -> Map<Seq<char>, ProcessId>
    decreases ops.len(),
{
    if ops.len() == 0 {
        Map::empty()
    } else {
        registered(ops.drop_last()).insert(ops.last().0, ops.last().1)
    }
}

/// The pid of the last registration of `name` in `ops`, if any.
pub open spec fn last_registration(ops: Seq<(Seq<char>, ProcessId)>, name: Seq<char>) -> Option<ProcessId>
    decreases ops.len(),
{
    if ops.len() == 0 {
        None
    } else if ops.last().0 == name {
        Some(ops.last().1)
    } else {
        last_registration(ops.drop_last(), name)
    }
}

/// After any sequence of registrations on a new registry, looking a name up
/// gives the pid of the last registration of that name, or nothing if the
/// name was never registered.
pub proof fn law_lookup_last_registration(ops: Seq<(Seq<char>, ProcessId)>, name: Seq<char>)
    ensures
        (if registered(ops).dom().contains(name) { Some(registered(ops)[name]) } else { None::<ProcessId> })
            == last_registration(ops, name),
    decreases ops.len(),
{
    if ops.len() > 0 {
        law_lookup_last_registration(ops.drop_last(), name);
    }
}

/// What a process sees of the kernel while it runs: its own pid, the message
/// bus, the service registry and the host requests. The kernel lends the bus
/// and the host state to the environment for the duration of a scheduling
/// round and takes them back afterwards.
pub struct SyscallEnv<'a> {
    pub pid: ProcessId,
    pub ipc: IpcBus,
    pub registry: &'a ServiceRegistry,
    pub host: HostState,
}

/// What a time slice sees of the kernel and leaves behind: the running
/// process, the mailboxes, the registry, the host requests so far, the host
/// clock and the id the host gives the next window.
pub struct World {
    pub pid: ProcessId,
    pub bus: Map<ProcessId, Seq<Message>>,
    pub registry: Map<Seq<char>, ProcessId>,
    pub calls: Seq<HostCall>,
    pub now_ms: u64,
    pub tz_offset_ms: i64,
    pub next_window_id: u32,
}

impl<'a> SyscallEnv<'a> {
    /// The environment as a mathematical value.
    pub open spec fn world(&self) -> World {
        World {
            pid: self.pid,
            bus: self.ipc@,
            registry: self.registry@,
            calls: self.host.calls@,
            now_ms: self.host.now_ms,
            tz_offset_ms: self.host.tz_offset_ms,
            next_window_id: self.host.next_window_id,
        }
    }

    pub open spec fn wf(&self) -> bool {
        self.registry.wf()
    }

    /// Everything but the bus is as it was.
    pub open spec fn same_but_bus(&self, other: &Self) -> bool {
        &&& self.pid == other.pid
        &&& self.registry == other.registry
        &&& self.host == other.host
    }

    /// Sends `payload` from this process to `target`.
    pub fn send_msg(&mut self, target: ProcessId, payload: MessagePayload)
        requires
            old(self).wf(),
        ensures
            final(self).wf(),
            final(self).same_but_bus(old(self)),
            final(self).ipc@ == bus_send(
                old(self).ipc@,
                Message { sender: old(self).pid, receiver: target, payload },
            ),
    {
        self.ipc.send(Message { sender: self.pid, receiver: target, payload });
    }

    /// Takes the oldest message waiting for this process.
    pub fn recv_msg(&mut self) -> (r: Option<Message>)
        requires
            old(self).wf(),
        ensures
            final(self).wf(),
            final(self).same_but_bus(old(self)),
            r == bus_receive_result(old(self).ipc@, old(self).pid),
            final(self).ipc@ == bus_receive(old(self).ipc@, old(self).pid),
    {
        self.ipc.receive(self.pid)
    }

    /// The pid of the service registered under `name`.
    pub fn lookup_service(&self, name: &str) -> (r: Option<ProcessId>)
        requires
            self.wf(),
        ensures
            r == (if self.registry@.dom().contains(name@) {
                Some(self.registry@[name@])
            } else {
                None::<ProcessId>
            }),
    {
        self.registry.lookup(name)
    }

    /// Queues a request to the host.
    pub fn host_call(&mut self, call: HostCall)
        ensures
            final(self).pid == old(self).pid,
            final(self).registry == old(self).registry,
            final(self).ipc == old(self).ipc,
            final(self).host.calls@ == old(self).host.calls@.push(call),
            final(self).host.now_ms == old(self).host.now_ms,
            final(self).host.tz_offset_ms == old(self).host.tz_offset_ms,
            final(self).host.next_window_id == old(self).host.next_window_id,
    {
        self.host.calls.push(call);
    }
}


impl Default for ServiceRegistry {
    /// An empty registry, as `new` makes it.
    fn default() -> (r: Self)
        ensures
            r.wf(),
            r@ == Map::<Seq<char>, ProcessId>::empty(),
    {
        Self::new()
    }
}

} // verus!
