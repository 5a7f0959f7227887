//! The requests that the kernel and its services make of the host page:
//! the host performs them in order after each kernel step.

use crate::ipc::{MessagePayload, ProcessId};
use vstd::prelude::*;

verus! {

/// One request to the host.
#[derive(Debug)]
pub enum HostCall {
    /// Write a line to the host console.
    Log { text: String },
    /// Run a program. `args` holds the NUL-terminated arguments, program
    /// path first; output written while it runs goes to `terminal_id`.
    Execve {
        args: Vec<u8>,
        cwd: String,
        stdin: Option<String>,
        stdout: Option<String>,
        terminal_id: u32,
        route_output_to: Option<u32>,
    },
    /// Print text straight into a terminal window.
    PrintDirect { id: u32, text: String },
    /// Perform one drawing operation.
    Display { payload: MessagePayload },
    /// Forward pointer and key events to a host-side application window.
    GuiMouseMove { id: u32, x: i32, y: i32 },
    GuiMouseDown { id: u32, x: i32, y: i32 },
    GuiMouseUp { id: u32, x: i32, y: i32 },
    GuiKeyDown { id: u32, key_code: u32 },
    /// Read a file and deliver its contents to `requester` as a
    /// `FileContents` message (an unreadable file reads as empty).
    ReadFile { requester: ProcessId, path: String },
    /// Write `content` to the file at `path`, ignoring failures.
    WriteFile { path: String, content: String },
}

/// A host request as a mathematical value.
pub enum HostView {
    Log { text: Seq<char> },
    Execve { args: Seq<u8>, cwd: Seq<char>, stdin: Option<Seq<char>>, stdout: Option<Seq<char>>, terminal_id: u32, route_output_to: Option<u32> },
    PrintDirect { id: u32, text: Seq<char> },
    ReadFile { requester: ProcessId, path: Seq<char> },
    WriteFile { path: Seq<char>, content: Seq<char> },
    Other,
}

pub open spec fn opt_view(o: Option<String>) -> Option<Seq<char>> {
    match o {
        Some(s) => Some(s@),
        None => None,
    }
}

pub open spec fn host_view(c: HostCall) -> HostView {
    match c {
        HostCall::Log { text } => HostView::Log { text: text@ },
        HostCall::Execve { args, cwd, stdin, stdout, terminal_id, route_output_to } => HostView::Execve {
            args: args@,
            cwd: cwd@,
            stdin: opt_view(stdin),
            stdout: opt_view(stdout),
            terminal_id,
            route_output_to,
        },
        HostCall::PrintDirect { id, text } => HostView::PrintDirect { id, text: text@ },
        HostCall::ReadFile { requester, path } => HostView::ReadFile { requester, path: path@ },
        HostCall::WriteFile { path, content } => HostView::WriteFile { path: path@, content: content@ },
        _ => HostView::Other,
    }
}

pub open spec fn host_views(cs: Seq<HostCall>) -> Seq<HostView> {
    cs.map_values(|c: HostCall| host_view(c))
}

/// What the kernel keeps for the host while processes run: the requests
/// made so far, the host clock, and the next id for windows that processes
/// create themselves.
pub struct HostState {
    pub calls: Vec<HostCall>,
    pub now_ms: u64,
    pub tz_offset_ms: i64,
    pub next_window_id: u32,
}

impl HostState {
    /// No requests yet; window ids start at 1.
    pub fn new() -> (h: Self)
        ensures
            h.calls@.len() == 0,
            h.now_ms == 0,
            h.tz_offset_ms == 0,
            h.next_window_id == 1,
    {
        HostState { calls: Vec::new(), now_ms: 0, tz_offset_ms: 0, next_window_id: 1 }
    }
}

} // verus!
