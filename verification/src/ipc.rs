//! Per-process mailboxes: every process owns one FIFO queue of messages.

use std::collections::{HashMap, VecDeque};
use vstd::prelude::*;

verus! {

broadcast use vstd::std_specs::hash::group_hash_axioms;

/// Process identifiers; the kernel itself is `0`.
pub type ProcessId = usize;

/// A colour whose components are given in hundredths (`0..=100`).
#[derive(Clone, Copy, PartialEq, Eq, Debug)]
pub struct Rgba {
    pub r: u32,
    pub g: u32,
    pub b: u32,
    pub a: u32,
}

/// Builds a colour from hundredths.
pub fn rgba(r: u32, g: u32, b: u32, a: u32) -> (c: Rgba)
    ensures
        c == (Rgba { r, g, b, a }),
{
    Rgba { r, g, b, a }
}

/// The applications that the start menu launches.
#[derive(Clone, Copy, PartialEq, Eq, Structural, Debug)]
pub enum AppKind {
    Terminal,
    Calculator,
    FileManager,
    Notepad,
    ImageViewer,
}

/// The payload of one message.
///
/// Sizes, radii and font sizes are whole pixels; colours are hundredths.
/// A wheel delta is carried as the bit pattern of the host's `f32`.
#[derive(Debug)]
pub enum MessagePayload {
    CreateWindow { id: u32, x: i32, y: i32, w: i32, h: i32, title: String, owner: ProcessId },
    DrawRect { x: i32, y: i32, w: i32, h: i32, color: Rgba, radius: u32, shadow_blur: u32 },
    ClearScreen,
    ScreenSizeChanged { w: i32, h: i32 },
    MouseMove { x: i32, y: i32 },
    MouseButton { down: bool },
    MouseWheel { delta_y_bits: u32 },
    KeyPress { key_code: u32 },
    UpdateTerminalBuffer {
        id: u32,
        lines: Vec<String>,
        is_pager: bool,
        pager_title: Option<String>,
        scroll_y: usize,
    },
    WasiPrintChar { id: u32, c: u8 },
    WindowClosed { id: u32 },
    DrawText { x: i32, y: i32, text: String, font_size: u32, color: Rgba },
    DrawCenteredText { x: i32, y: i32, text: String, font_size: u32, color: Rgba },
    DrawGuiApp { id: u32, x: i32, y: i32, w: i32, h: i32 },
    LoadImage { id: u32, url: String },
    DrawImage { id: u32, x: i32, y: i32, w: i32, h: i32 },
    ClearText,
    SpawnTerminal,
    SpawnProcess { bin: String },
    /// Start one of the desktop applications.
    SpawnApp { app: AppKind },
    AppendHtmlOverlayText { id: u32, text: String },
    ClearHtmlOverlayText { id: u32 },
    UpdateHtmlOverlayInputLine { id: u32, prompt: String, input: String, cursor_pos: u32 },
    DrawEditor { id: u32, content: String, cursor_pos: u32 },
    /// The contents of a file that a process asked the host to read.
    FileContents { path: String, content: String },
    /// The host reports that an application window wants to be repainted.
    RedrawRequest,
}

/// A payload as a mathematical value: strings become character sequences.
pub enum PayloadView {
    CreateWindow { id: u32, x: i32, y: i32, w: i32, h: i32, title: Seq<char>, owner: ProcessId },
    AppendOverlay { id: u32, text: Seq<char> },
    ClearOverlay { id: u32 },
    InputLine { id: u32, prompt: Seq<char>, input: Seq<char>, cursor_pos: u32 },
    Editor { id: u32, content: Seq<char>, cursor_pos: u32 },
    SpawnProcess { bin: Seq<char> },
    Other,
}

pub open spec fn payload_view(p: MessagePayload) -> PayloadView {
    match p {
        MessagePayload::CreateWindow { id, x, y, w, h, title, owner } => PayloadView::CreateWindow { id, x, y, w, h, title: title@, owner },
        MessagePayload::AppendHtmlOverlayText { id, text } => PayloadView::AppendOverlay { id, text: text@ },
        MessagePayload::ClearHtmlOverlayText { id } => PayloadView::ClearOverlay { id },
        MessagePayload::UpdateHtmlOverlayInputLine { id, prompt, input, cursor_pos } => PayloadView::InputLine {
            id,
            prompt: prompt@,
            input: input@,
            cursor_pos,
        },
        MessagePayload::DrawEditor { id, content, cursor_pos } => PayloadView::Editor { id, content: content@, cursor_pos },
        MessagePayload::SpawnProcess { bin } => PayloadView::SpawnProcess { bin: bin@ },
        _ => PayloadView::Other,
    }
}

/// A message as a mathematical value.
pub struct MsgView {
    pub sender: ProcessId,
    pub receiver: ProcessId,
    pub payload: PayloadView,
}

pub open spec fn msg_view(m: Message) -> MsgView {
    MsgView { sender: m.sender, receiver: m.receiver, payload: payload_view(m.payload) }
}

pub open spec fn msg_views(ms: Seq<Message>) -> Seq<MsgView> {
    ms.map_values(|m: Message| msg_view(m))
}

/// The bus went from `before` to `after` by sending messages whose views
/// are `vs`, in order.
pub open spec fn sent_views(before: Map<ProcessId, Seq<Message>>, after: Map<ProcessId, Seq<Message>>, vs: Seq<MsgView>) -> bool {
    exists|o: Seq<Message>| msg_views(o) == vs && after == bus_send_all(before, o)
}

pub proof fn lemma_sent_none(m: Map<ProcessId, Seq<Message>>)
    ensures
        sent_views(m, m, Seq::empty()),
{
    let o = Seq::<Message>::empty();
    assert(msg_views(o) =~= Seq::<MsgView>::empty());
    assert(bus_send_all(m, o) == m);
}

pub proof fn lemma_sent_one(m: Map<ProcessId, Seq<Message>>, msg: Message)
    ensures
        sent_views(m, bus_send(m, msg), seq![msg_view(msg)]),
{
    let o = seq![msg];
    assert(msg_views(o) =~= seq![msg_view(msg)]);
    assert(o.drop_last() =~= Seq::<Message>::empty());
    assert(bus_send_all(m, o) == bus_send(bus_send_all(m, Seq::<Message>::empty()), msg));
}

pub proof fn lemma_sent_chain(a: Map<ProcessId, Seq<Message>>, b: Map<ProcessId, Seq<Message>>, c: Map<ProcessId, Seq<Message>>, v1: Seq<MsgView>, v2: Seq<MsgView>)
    requires
        sent_views(a, b, v1),
        sent_views(b, c, v2),
    ensures
        sent_views(a, c, v1 + v2),
{
    let o1 = choose|o: Seq<Message>| msg_views(o) == v1 && b == bus_send_all(a, o);
    let o2 = choose|o: Seq<Message>| msg_views(o) == v2 && c == bus_send_all(b, o);
    lemma_send_all_concat(a, o1, o2);
    assert(msg_views(o1 + o2) =~= v1 + v2);
}

/// A drawing message as a mathematical value.
pub enum DrawOp {
    Rect { x: i32, y: i32, w: i32, h: i32, color: Rgba, radius: u32, shadow_blur: u32 },
    Text { x: i32, y: i32, text: Seq<char>, font_size: u32, color: Rgba },
    CenteredText { x: i32, y: i32, text: Seq<char>, font_size: u32, color: Rgba },
    GuiApp { id: u32, x: i32, y: i32, w: i32, h: i32 },
    ClearScreen,
    ClearText,
    Other,
}

/// What a payload draws.
pub open spec fn draw_op(p: MessagePayload) -> DrawOp {
    match p {
        MessagePayload::DrawRect { x, y, w, h, color, radius, shadow_blur } => DrawOp::Rect { x, y, w, h, color, radius, shadow_blur },
        MessagePayload::DrawText { x, y, text, font_size, color } => DrawOp::Text { x, y, text: text@, font_size, color },
        MessagePayload::DrawCenteredText { x, y, text, font_size, color } => DrawOp::CenteredText { x, y, text: text@, font_size, color },
        MessagePayload::DrawGuiApp { id, x, y, w, h } => DrawOp::GuiApp { id, x, y, w, h },
        MessagePayload::ClearScreen => DrawOp::ClearScreen,
        MessagePayload::ClearText => DrawOp::ClearText,
        _ => DrawOp::Other,
    }
}

pub open spec fn draw_ops(ps: Seq<MessagePayload>) -> Seq<DrawOp> {
    ps.map_values(|p: MessagePayload| draw_op(p))
}

/// The messages carrying `ps`, in order, from `sender` to `receiver`.
pub open spec fn messages_to(sender: ProcessId, receiver: ProcessId, ps: Seq<MessagePayload>) -> Seq<Message> {
    ps.map_values(|p: MessagePayload| Message { sender, receiver, payload: p })
}

/// A message in flight between two processes.
#[derive(Debug)]
pub struct Message {
    pub sender: ProcessId,
    pub receiver: ProcessId,
    pub payload: MessagePayload,
}

/// The mailbox of a process within a bus model: empty when it has none.
pub open spec fn queue_in(m: Map<ProcessId, Seq<Message>>, pid: ProcessId) -> Seq<Message> {
    if m.dom().contains(pid) {
        m[pid]
    } else {
        Seq::empty()
    }
}

/// The bus after `msg` is appended to its receiver's mailbox
/// (the mailbox is created on first use).
pub open spec fn bus_send(m: Map<ProcessId, Seq<Message>>, msg: Message) -> Map<ProcessId, Seq<Message>> {
    m.insert(msg.receiver, queue_in(m, msg.receiver).push(msg))
}

/// What receiving for `pid` yields: the oldest message of its mailbox, if any.
pub open spec fn bus_receive_result(m: Map<ProcessId, Seq<Message>>, pid: ProcessId) -> Option<Message> {
    if queue_in(m, pid).len() > 0 {
        Some(queue_in(m, pid)[0])
    } else {
        None
    }
}

/// The bus after receiving for `pid`.
pub open spec fn bus_receive(m: Map<ProcessId, Seq<Message>>, pid: ProcessId) -> Map<ProcessId, Seq<Message>> {
    if queue_in(m, pid).len() > 0 {
        m.insert(pid, queue_in(m, pid).drop_first())
    } else {
        m
    }
}

/// Mailboxes of all processes that have ever been sent a message, by pid.
pub struct IpcBus {
    queues: HashMap<ProcessId, VecDeque<Message>>,
}

impl IpcBus {
    /// Each process's mailbox, oldest message first.
    pub closed spec fn view(&self) -> Map<ProcessId, Seq<Message>> {
        self.queues@.map_values(|q: VecDeque<Message>| q@)
    }

    pub open spec fn queue(&self, pid: ProcessId) -> Seq<Message> {
        queue_in(self@, pid)
    }

    /// An empty bus.
    pub fn new() -> (bus: Self)
        ensures
            bus@ == Map::<ProcessId, Seq<Message>>::empty(),
    {
        let bus = Self { queues: HashMap::new() };
        assert(bus@ =~= Map::<ProcessId, Seq<Message>>::empty());
        bus
    }

    /// Appends `msg` to the mailbox of its receiver.
    pub fn send(&mut self, msg: Message)
        ensures
            final(self)@ == bus_send(old(self)@, msg),
    {
        let receiver = msg.receiver;
        let mut q = match self.queues.remove(&receiver) {
            Some(q) => q,
            None => VecDeque::new(),
        };
        assert(q@ == queue_in(old(self)@, receiver));
        q.push_back(msg);
        self.queues.insert(receiver, q);
        assert(self@ =~= bus_send(old(self)@, msg));
    }

    /// How many messages wait in `pid`'s mailbox.
    pub fn pending(&self, pid: ProcessId) -> (n: usize)
        ensures
            n == self.queue(pid).len(),
    {
        match self.queues.get(&pid) {
            Some(q) => q.len(),
            None => 0,
        }
    }

    /// Takes the oldest message of `pid`'s mailbox, if there is one.
    pub fn receive(&mut self, pid: ProcessId) -> (r: Option<Message>)
        ensures
            r == bus_receive_result(old(self)@, pid),
            final(self)@ == bus_receive(old(self)@, pid),
    {
        match self.queues.remove(&pid) {
            Some(q) => {
                let mut q = q;
                let ghost q0 = q@;
                let r = q.pop_front();
                self.queues.insert(pid, q);
                proof {
                    if q0.len() == 0 {
                        assert(q@ =~= q0);
                    }
                }
                assert(self@ =~= bus_receive(old(self)@, pid));
                r
            },
            None => {
                assert(self@ =~= old(self)@);
                None
            },
        }
    }
}

/// The bus after sending each of `msgs` in turn.
pub open spec fn bus_send_all(m: Map<ProcessId, Seq<Message>>, msgs: Seq<Message>) -> Map<ProcessId, Seq<Message>>
    decreases msgs.len(),
{
    if msgs.len() == 0 {
        m
    } else {
        bus_send(bus_send_all(m, msgs.drop_last()), msgs.last())
    }
}

/// The bus with `pid`'s mailbox (if it has one) replaced by `q`.
pub open spec fn bus_with_queue(m: Map<ProcessId, Seq<Message>>, pid: ProcessId, q: Seq<Message>) -> Map<ProcessId, Seq<Message>> {
    if m.dom().contains(pid) {
        m.insert(pid, q)
    } else {
        m
    }
}

/// Sending two batches is sending their concatenation.
pub proof fn lemma_send_all_concat(m: Map<ProcessId, Seq<Message>>, a: Seq<Message>, b: Seq<Message>)
    ensures
        bus_send_all(m, a + b) == bus_send_all(bus_send_all(m, a), b),
    decreases b.len(),
{
    if b.len() == 0 {
        assert(a + b =~= a);
    } else {
        assert((a + b).drop_last() =~= a + b.drop_last());
        assert((a + b).last() == b.last());
        lemma_send_all_concat(m, a, b.drop_last());
    }
}

/// While a process works through the messages that were waiting for it,
/// whatever it sends meanwhile (even to itself) queues up behind them.
pub proof fn lemma_receive_through_sends(
    m: Map<ProcessId, Seq<Message>>,
    pid: ProcessId,
    q: Seq<Message>,
    outs: Seq<Message>,
)
    requires
        m.dom().contains(pid),
        q.len() > 0,
    ensures
        bus_receive_result(bus_send_all(bus_with_queue(m, pid, q), outs), pid) == Some(q[0]),
        bus_receive(bus_send_all(bus_with_queue(m, pid, q), outs), pid)
            == bus_send_all(bus_with_queue(m, pid, q.drop_first()), outs),
        queue_in(bus_send_all(bus_with_queue(m, pid, q), outs), pid).len() > 0,
    decreases outs.len(),
{
    if outs.len() == 0 {
        assert(bus_receive(bus_with_queue(m, pid, q), pid) =~= bus_with_queue(m, pid, q.drop_first()));
    } else {
        let inner = bus_send_all(bus_with_queue(m, pid, q), outs.drop_last());
        lemma_receive_through_sends(m, pid, q, outs.drop_last());
        law_receive_commutes_with_send(inner, outs.last(), pid);
        let msg = outs.last();
        if msg.receiver == pid {
            assert(queue_in(bus_send(inner, msg), pid) =~= queue_in(inner, pid).push(msg));
        }
    }
}

/// Receiving from a process with nothing waiting changes nothing.
pub proof fn law_receive_empty(m: Map<ProcessId, Seq<Message>>, pid: ProcessId)
    requires
        queue_in(m, pid).len() == 0,
    ensures
        bus_receive(m, pid) == m,
        bus_receive_result(m, pid) == None::<Message>,
{
}

/// A message sent to an empty mailbox is the next one received there, and
/// receiving it leaves the mailbox empty again.
pub proof fn law_send_then_receive(m: Map<ProcessId, Seq<Message>>, msg: Message)
    requires
        queue_in(m, msg.receiver).len() == 0,
    ensures
        bus_receive_result(bus_send(m, msg), msg.receiver) == Some(msg),
        queue_in(bus_receive(bus_send(m, msg), msg.receiver), msg.receiver).len() == 0,
{
    assert(queue_in(bus_send(m, msg), msg.receiver) =~= seq![msg]);
}

/// Sending to one process changes nothing that another process receives.
pub proof fn law_mailboxes_isolated(m: Map<ProcessId, Seq<Message>>, msg: Message, pid: ProcessId)
    requires
        msg.receiver != pid,
    ensures
        queue_in(bus_send(m, msg), pid) == queue_in(m, pid),
        bus_receive_result(bus_send(m, msg), pid) == bus_receive_result(m, pid),
{
}

/// A send does not overtake the messages already waiting: when a mailbox is
/// not empty, sending and then receiving gives the same message as receiving
/// first, and the two orders leave the same bus.
pub proof fn law_receive_commutes_with_send(m: Map<ProcessId, Seq<Message>>, msg: Message, pid: ProcessId)
    requires
        queue_in(m, pid).len() > 0,
    ensures
        bus_receive_result(bus_send(m, msg), pid) == bus_receive_result(m, pid),
        bus_receive(bus_send(m, msg), pid) == bus_send(bus_receive(m, pid), msg),
{
    if msg.receiver == pid {
        assert(queue_in(m, pid).push(msg).drop_first() =~= queue_in(m, pid).drop_first().push(msg));
        assert(bus_receive(bus_send(m, msg), pid) =~= bus_send(bus_receive(m, pid), msg));
    } else {
        assert(bus_receive(bus_send(m, msg), pid) =~= bus_send(bus_receive(m, pid), msg));
    }
}

/// Messages sent one after another to an empty mailbox wait there in the
/// order in which they were sent.
pub proof fn law_fifo(m: Map<ProcessId, Seq<Message>>, msgs: Seq<Message>, pid: ProcessId)
    requires
        queue_in(m, pid).len() == 0,
        forall|i: int| 0 <= i < msgs.len() ==> (#[trigger] msgs[i]).receiver == pid,
    ensures
        queue_in(bus_send_all(m, msgs), pid) == msgs,
    decreases msgs.len(),
{
    if msgs.len() == 0 {
        assert(queue_in(m, pid) =~= msgs);
    } else {
        let init = msgs.drop_last();
        assert forall|i: int| 0 <= i < init.len() implies (#[trigger] init[i]).receiver == pid by {
            assert(init[i] == msgs[i]);
        }
        law_fifo(m, init, pid);
        assert(msgs.last() == msgs[msgs.len() - 1]);
        assert(init.push(msgs.last()) =~= msgs);
    }
}


impl Default for IpcBus {
    /// An empty bus, as `new` makes it.
    fn default() -> (bus: Self)
        ensures
            bus@ == Map::<ProcessId, Seq<Message>>::empty(),
    {
        Self::new()
    }
}

} // verus!
