//! The display service: it turns drawing messages into drawing requests for
//! the host, in the order in which they arrive.

use crate::host::HostCall;
use crate::ipc::{bus_with_queue, lemma_receive_through_sends, queue_in, bus_send_all, Message, MessagePayload, ProcessId};
use crate::process::Process;
use crate::sys::{SyscallEnv, World};
use vstd::prelude::*;

verus! {

pub struct DisplayServer {
    pid: ProcessId,
}

/// The messages that the display service draws; it ignores all others.
pub open spec fn is_drawing(p: MessagePayload) -> bool {
    match p {
        MessagePayload::DrawRect { .. } => true,
        MessagePayload::DrawGuiApp { .. } => true,
        MessagePayload::ClearScreen => true,
        MessagePayload::DrawText { .. } => true,
        MessagePayload::DrawCenteredText { .. } => true,
        MessagePayload::ClearText => true,
        MessagePayload::LoadImage { .. } => true,
        MessagePayload::DrawImage { .. } => true,
        _ => false,
    }
}

/// The drawing requests made for `msgs`, in order.
pub open spec fn display_calls(msgs: Seq<Message>) -> Seq<HostCall>
    decreases msgs.len(),
{
    if msgs.len() == 0 {
        Seq::empty()
    } else if is_drawing(msgs.last().payload) {
        display_calls(msgs.drop_last()).push(HostCall::Display { payload: msgs.last().payload })
    } else {
        display_calls(msgs.drop_last())
    }
}

impl DisplayServer {
    pub fn new(pid: ProcessId) -> (s: Self)
        ensures
            s.pid() == pid,
    {
        Self { pid }
    }

    pub closed spec fn pid(&self) -> ProcessId {
        self.pid
    }
}

impl Process for DisplayServer {
    open spec fn slice(&self, b: World, after: Self, a: World) -> bool {
        &&& after == *self
        &&& a == (World { bus: bus_with_queue(b.bus, b.pid, Seq::empty()), calls: b.calls + display_calls(queue_in(b.bus, b.pid)), ..b })
    }

    open spec fn process_id(&self) -> ProcessId {
        self.pid()
    }

    open spec fn inv(&self) -> bool {
        true
    }

    fn id(&self) -> (r: ProcessId)
        ensures
            r == self.pid(),
    {
        self.pid
    }

    fn name(&self) -> (r: &str)
        ensures
            r@ == "display_server"@,
    {
        "display_server"
    }

    /// Draws every message waiting at the start of the slice.
    fn tick(&mut self, env: &mut SyscallEnv) -> (alive: bool)
        ensures
            alive,
            *final(self) == *old(self),
            final(env).ipc@ == bus_with_queue(old(env).ipc@, old(env).pid, Seq::empty()),
            final(env).host.calls@ == old(env).host.calls@ + display_calls(
                queue_in(old(env).ipc@, old(env).pid),
            ),
            final(env).host.now_ms == old(env).host.now_ms,
            final(env).host.tz_offset_ms == old(env).host.tz_offset_ms,
            final(env).host.next_window_id == old(env).host.next_window_id,
    {
        let n = env.ipc.pending(env.pid);
        let ghost m0 = env.ipc@;
        let ghost me = env.pid;
        let ghost q0 = queue_in(m0, env.pid);
        let ghost c0 = env.host.calls@;
        let mut k: usize = 0;
        assert(q0.skip(0) =~= q0);
        assert(q0.take(0) =~= Seq::<Message>::empty());
        assert(c0 + display_calls(q0.take(0)) =~= c0);
        proof {
            if q0.len() == 0 {
                assert(bus_with_queue(m0, me, q0) =~= m0);
            }
        }
        while k < n
            invariant
                env.wf(),
                env.pid == me,
                env.registry == old(env).registry,
                k <= n,
                n == q0.len(),
                q0 == queue_in(m0, me),
                env.ipc@ == bus_with_queue(m0, me, q0.skip(k as int)),
                env.host.calls@ == c0 + display_calls(q0.take(k as int)),
                env.host.now_ms == old(env).host.now_ms,
                env.host.tz_offset_ms == old(env).host.tz_offset_ms,
                env.host.next_window_id == old(env).host.next_window_id,
            decreases n - k,
        {
            proof {
                lemma_receive_through_sends(m0, me, q0.skip(k as int), Seq::empty());
                assert(q0.skip(k as int).drop_first() =~= q0.skip(k + 1));
                assert(q0.skip(k as int)[0] == q0[k as int]);
                assert(q0.take(k + 1).drop_last() =~= q0.take(k as int));
                assert(q0.take(k + 1).last() == q0[k as int]);
            }
            let msg = env.recv_msg();
            match msg {
                Some(msg) => {
                    match msg.payload {
                        MessagePayload::DrawRect { x, y, w, h, color, radius, shadow_blur } => {
                            env.host_call(HostCall::Display {
                                payload: MessagePayload::DrawRect { x, y, w, h, color, radius, shadow_blur },
                            });
                        },
                        MessagePayload::DrawGuiApp { id, x, y, w, h } => {
                            env.host_call(HostCall::Display { payload: MessagePayload::DrawGuiApp { id, x, y, w, h } });
                        },
                        MessagePayload::ClearScreen => {
                            env.host_call(HostCall::Display { payload: MessagePayload::ClearScreen });
                        },
                        MessagePayload::DrawText { x, y, text, font_size, color } => {
                            env.host_call(HostCall::Display {
                                payload: MessagePayload::DrawText { x, y, text, font_size, color },
                            });
                        },
                        MessagePayload::DrawCenteredText { x, y, text, font_size, color } => {
                            env.host_call(HostCall::Display {
                                payload: MessagePayload::DrawCenteredText { x, y, text, font_size, color },
                            });
                        },
                        MessagePayload::ClearText => {
                            env.host_call(HostCall::Display { payload: MessagePayload::ClearText });
                        },
                        MessagePayload::LoadImage { id, url } => {
                            env.host_call(HostCall::Display { payload: MessagePayload::LoadImage { id, url } });
                        },
                        MessagePayload::DrawImage { id, x, y, w, h } => {
                            env.host_call(HostCall::Display { payload: MessagePayload::DrawImage { id, x, y, w, h } });
                        },
                        _ => {},
                    }
                },
                None => {},
            }
            k = k + 1;
        }
        assert(q0.skip(n as int) =~= Seq::<Message>::empty());
        assert(q0.take(n as int) =~= q0);
        true
    }
}

} // verus!
