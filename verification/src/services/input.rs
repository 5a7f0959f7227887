//! The input service: it forwards pointer events to the window manager and
//! key presses to the terminal.

use crate::ipc::{
    bus_send, bus_send_all, bus_with_queue, lemma_receive_through_sends, lemma_send_all_concat,
    queue_in, Message, MessagePayload, ProcessId,
};
use crate::process::Process;
use crate::sys::{SyscallEnv, World};
use vstd::prelude::*;

verus! {

pub struct InputServer {
    pid: ProcessId,
}

/// What the input service sends on receiving `p`, given the registry.
///
/// Nothing is forwarded while no window manager is registered; key presses
/// go to the terminal, when there is one.
pub open spec fn input_forward(reg: Map<Seq<char>, ProcessId>, me: ProcessId, p: MessagePayload) -> Seq<Message> {
    if reg.dom().contains("wm"@) {
        match p {
            MessagePayload::MouseMove { x, y } => seq![
                Message { sender: me, receiver: reg["wm"@], payload: MessagePayload::MouseMove { x, y } },
            ],
            MessagePayload::MouseButton { down } => seq![
                Message { sender: me, receiver: reg["wm"@], payload: MessagePayload::MouseButton { down } },
            ],
            MessagePayload::KeyPress { key_code } => if reg.dom().contains("terminal"@) {
                seq![
                    Message {
                        sender: me,
                        receiver: reg["terminal"@],
                        payload: MessagePayload::KeyPress { key_code },
                    },
                ]
            } else {
                Seq::empty()
            },
            _ => Seq::empty(),
        }
    } else {
        Seq::empty()
    }
}

/// Everything the input service sends while working through `msgs`.
pub open spec fn input_forward_all(reg: Map<Seq<char>, ProcessId>, me: ProcessId, msgs: Seq<Message>) -> Seq<Message>
    decreases msgs.len(),
{
    if msgs.len() == 0 {
        Seq::empty()
    } else {
        input_forward_all(reg, me, msgs.drop_last()) + input_forward(reg, me, msgs.last().payload)
    }
}

impl InputServer {
    pub fn new(pid: ProcessId) -> (s: Self)
        ensures
            s.pid() == pid,
    {
        Self { pid }
    }

    pub closed spec fn pid(&self) -> ProcessId {
        self.pid
    }

    /// Handles one message.
    fn handle(&self, env: &mut SyscallEnv, payload: MessagePayload)
        requires
            old(env).wf(),
        ensures
            final(env).wf(),
            final(env).same_but_bus(old(env)),
            final(env).ipc@ == bus_send_all(
                old(env).ipc@,
                input_forward(old(env).registry@, old(env).pid, payload),
            ),
    {
        let ghost m = env.ipc@;
        if let Some(wm_pid) = env.lookup_service("wm") {
            match payload {
                MessagePayload::MouseMove { x, y } => {
                    env.send_msg(wm_pid, MessagePayload::MouseMove { x, y });
                    proof { reveal_with_fuel(bus_send_all, 2); }
                },
                MessagePayload::MouseButton { down } => {
                    env.send_msg(wm_pid, MessagePayload::MouseButton { down });
                    proof { reveal_with_fuel(bus_send_all, 2); }
                },
                MessagePayload::KeyPress { key_code } => {
                    if let Some(term_pid) = env.lookup_service("terminal") {
                        env.send_msg(term_pid, MessagePayload::KeyPress { key_code });
                        proof { reveal_with_fuel(bus_send_all, 2); }
                    }
                },
                _ => {},
            }
        }
    }
}

impl Process for InputServer {
    open spec fn slice(&self, b: World, after: Self, a: World) -> bool {
        &&& after == *self
        &&& a == (World {
            bus: bus_send_all(bus_with_queue(b.bus, b.pid, Seq::empty()), input_forward_all(b.registry, b.pid, queue_in(b.bus, b.pid))),
            ..b
        })
    }

    open spec fn process_id(&self) -> ProcessId {
        self.pid()
    }

    open spec fn inv(&self) -> bool {
        true
    }

    fn id(&self) -> (r: ProcessId)
        ensures
            r == self.pid(),
    {
        self.pid
    }

    fn name(&self) -> (r: &str)
        ensures
            r@ == "input_server"@,
    {
        "input_server"
    }

    /// Forwards every message waiting at the start of the slice.
    fn tick(&mut self, env: &mut SyscallEnv) -> (alive: bool)
        ensures
            alive,
            *final(self) == *old(self),
            final(env).host == old(env).host,
            final(env).ipc@ == bus_send_all(
                bus_with_queue(old(env).ipc@, old(env).pid, Seq::empty()),
                input_forward_all(
                    old(env).registry@,
                    old(env).pid,
                    queue_in(old(env).ipc@, old(env).pid),
                ),
            ),
    {
        let n = env.ipc.pending(env.pid);
        let ghost m0 = env.ipc@;
        let ghost me = env.pid;
        let ghost reg = env.registry@;
        let ghost q0 = queue_in(m0, env.pid);
        let mut k: usize = 0;
        assert(q0.skip(0) =~= q0);
        assert(q0.take(0) =~= Seq::<Message>::empty());
        proof {
            if q0.len() == 0 {
                assert(bus_with_queue(m0, me, q0) =~= m0);
            }
        }
        while k < n
            invariant
                env.wf(),
                env.pid == me,
                env.registry == old(env).registry,
                env.registry@ == reg,
                env.host == old(env).host,
                k <= n,
                n == q0.len(),
                q0 == queue_in(m0, me),
                env.ipc@ == bus_send_all(
                    bus_with_queue(m0, me, q0.skip(k as int)),
                    input_forward_all(reg, me, q0.take(k as int)),
                ),
            decreases n - k,
        {
            let ghost outs = input_forward_all(reg, me, q0.take(k as int));
            proof {
                lemma_receive_through_sends(m0, me, q0.skip(k as int), outs);
                assert(q0.skip(k as int).drop_first() =~= q0.skip(k + 1));
                assert(q0.skip(k as int)[0] == q0[k as int]);
            }
            let msg = env.recv_msg();
            match msg {
                Some(msg) => {
                    let ghost before = env.ipc@;
                    self.handle(env, msg.payload);
                    proof {
                        let step = input_forward(reg, me, q0[k as int].payload);
                        lemma_send_all_concat(bus_with_queue(m0, me, q0.skip(k + 1)), outs, step);
                        assert(q0.take(k + 1).drop_last() =~= q0.take(k as int));
                        assert(q0.take(k + 1).last() == q0[k as int]);
                    }
                },
                None => {},
            }
            k = k + 1;
        }
        assert(q0.skip(n as int) =~= Seq::<Message>::empty());
        assert(q0.take(n as int) =~= q0);
        true
    }
}

} // verus!
