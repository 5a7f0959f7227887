//! What applications call to use system services.

use crate::host::{host_view, host_views, HostCall, HostView};
use crate::ipc::{bus_send, lemma_sent_none, lemma_sent_one, msg_view, sent_views, Message, MessagePayload, MsgView, PayloadView};
use crate::sys::SyscallEnv;
use crate::text::copy_str;
use vstd::prelude::*;
use vstd::string::*;

verus! {

/// An open file.
pub struct FileHandle {}

/// A window created through the window manager.
pub struct WindowHandle {
    pub id: u32,
}

/// Asks the window manager for a window titled `title`, owned by the
/// calling process. Window ids come from a counter that starts at 1 and
/// wraps around. Without a window manager nothing is created and an error
/// line is logged.
pub fn create_window(env: &mut SyscallEnv, x: i32, y: i32, w: i32, h: i32, title: &str) -> (r: Option<WindowHandle>)
    requires
        old(env).wf(),
    ensures
        final(env).wf(),
        final(env).pid == old(env).pid,
        final(env).registry == old(env).registry,
        final(env).host.now_ms == old(env).host.now_ms,
        final(env).host.tz_offset_ms == old(env).host.tz_offset_ms,
        old(env).registry@.dom().contains("wm"@) ==> {
            &&& r == Some(WindowHandle { id: old(env).host.next_window_id })
            &&& final(env).host.next_window_id == vstd::wrapping::u32_specs::wrapping_add(old(env).host.next_window_id, 1)
            &&& final(env).host.calls@ == old(env).host.calls@
            &&& sent_views(old(env).ipc@, final(env).ipc@, seq![MsgView {
                sender: old(env).pid,
                receiver: old(env).registry@["wm"@],
                payload: PayloadView::CreateWindow { id: old(env).host.next_window_id, x, y, w, h, title: title@, owner: old(env).pid },
            }])
        },
        !old(env).registry@.dom().contains("wm"@) ==> {
            &&& r is None
            &&& final(env).ipc@ == old(env).ipc@
            &&& final(env).host.next_window_id == old(env).host.next_window_id
            &&& host_views(final(env).host.calls@) == host_views(old(env).host.calls@).push(
                HostView::Log { text: "[API Error] Window Manager service not found."@ },
            )
        },
{
    match env.lookup_service("wm") {
        Some(wm_pid) => {
            let id = env.host.next_window_id;
            env.host.next_window_id = id.wrapping_add(1);
            let ghost before = env.ipc@;
            let payload = MessagePayload::CreateWindow { id, x, y, w, h, title: copy_str(title), owner: env.pid };
            let ghost msg = Message { sender: env.pid, receiver: wm_pid, payload };
            env.send_msg(wm_pid, payload);
            proof { lemma_sent_one(before, msg); }
            Some(WindowHandle { id })
        },
        None => {
            let ghost c0 = env.host.calls@;
            let c = HostCall::Log { text: copy_str("[API Error] Window Manager service not found.") };
            env.host_call(c);
            assert(host_views(env.host.calls@) =~= host_views(c0).push(host_view(c)));
            None
        },
    }
}

/// Opens `path` through the file system service, logging the request.
/// Without a file system service there is nothing to open.
pub fn open(env: &mut SyscallEnv, path: &str) -> (r: Option<FileHandle>)
    requires
        old(env).wf(),
    ensures
        final(env).wf(),
        final(env).pid == old(env).pid,
        final(env).registry == old(env).registry,
        final(env).ipc == old(env).ipc,
        final(env).host.next_window_id == old(env).host.next_window_id,
        r is Some <==> old(env).registry@.dom().contains("vfs"@),
        r is Some ==> host_views(final(env).host.calls@) == host_views(old(env).host.calls@).push(
            HostView::Log { text: "[API] Opening file: "@ + path@ },
        ),
        r is None ==> final(env).host.calls@ == old(env).host.calls@,
{
    match env.lookup_service("vfs") {
        Some(_vfs_pid) => {
            let ghost c0 = env.host.calls@;
            let mut text = copy_str("[API] Opening file: ");
            text.append(path);
            let c = HostCall::Log { text };
            env.host_call(c);
            assert(host_views(env.host.calls@) =~= host_views(c0).push(host_view(c)));
            Some(FileHandle {})
        },
        None => None,
    }
}

} // verus!
