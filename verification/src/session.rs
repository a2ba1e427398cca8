//! The control-stream conversations of a transfer, as state machines.
//!
//! The initiating peer (`SendSession`) sends `Hello`, expects `HelloAck`,
//! sends `Request`, expects `Accept`, then sends the files on data streams
//! and finally `Done`. The answering peer (`ReceiveSession`) expects `Hello`
//! with a matching protocol version, answers `HelloAck`, expects `Request`,
//! answers `Accept`, then routes data streams to the announced files until
//! `Done` or the end of the control stream. The application performs the
//! I/O each step asks for and feeds back what it read.

use vstd::prelude::*;

use crate::config::PROTOCOL_VERSION;
use crate::error::{EngineError, ErrorKind};
use crate::protocol::{duplicate_metas, metas_view, ControlMessage, ControlView, FileMeta, FileMetaView, StreamHeader};
use crate::transfer::{sanitize_file_name, sanitized_file_name};

verus! {

/// The view of an optional control message.
pub open spec fn opt_view(msg: Option<ControlMessage>) -> Option<ControlView> {
    match msg {
        Some(m) => Some(m@),
        None => None,
    }
}

// ---------------------------------------------------------------------------
// Receiving side
// ---------------------------------------------------------------------------

/// Where the answering peer stands in the conversation.
#[derive(PartialEq, Eq, Structural, Clone, Copy, Debug)]
pub enum ReceivePhase {
    AwaitHello,
    AwaitRequest,
    Receiving,
    Closed,
}

/// A file the receiver creates: its sanitised name and announced size.
#[derive(Debug)]
pub struct OutputFile {
    pub name: String,
    pub size: u64,
}

/// The answering peer's state.
pub struct ReceiveSession {
    phase: ReceivePhase,
    device_name: String,
    node_id: String,
    peer_device: String,
    peer_id: String,
    transfer_id: u64,
    files: Vec<FileMeta>,
}

/// What a `ReceiveSession` holds, as plain values.
pub struct ReceiveView {
    pub phase: ReceivePhase,
    pub device_name: Seq<char>,
    pub node_id: Seq<char>,
    pub peer_device: Seq<char>,
    pub peer_id: Seq<char>,
    pub transfer_id: u64,
    pub files: Seq<FileMetaView>,
}

impl View for ReceiveSession {
    type V = ReceiveView;

    closed spec fn view(&self) -> ReceiveView {
        ReceiveView {
            phase: self.phase,
            device_name: self.device_name@,
            node_id: self.node_id@,
            peer_device: self.peer_device@,
            peer_id: self.peer_id@,
            transfer_id: self.transfer_id,
            files: metas_view(self.files@),
        }
    }
}

/// What the application does after a control message reached the receiver.
#[derive(Debug)]
pub enum ReceiveStep {
    /// The peer introduced itself: report it and send `reply` (a `HelloAck`).
    Greet { reply: ControlMessage, peer_id: String, peer_device: String },
    /// The request is accepted: send `reply` (an `Accept`) and create
    /// `outputs`, one per announced file, in order.
    AcceptTransfer { reply: ControlMessage, outputs: Vec<OutputFile> },
    /// Nothing to do; keep receiving.
    Continue,
    /// The conversation is over: flush the outputs and stop.
    Finish,
}

/// The view of a receiver step (or of the error that ends the conversation).
pub enum ReceiveOutcome {
    Greet { reply: ControlView, peer_id: Seq<char>, peer_device: Seq<char> },
    AcceptTransfer { reply: ControlView, outputs: Seq<(Seq<char>, u64)> },
    Continue,
    Finish,
    Fail((ErrorKind, Seq<char>)),
}

pub open spec fn outputs_view(outputs: Seq<OutputFile>) -> Seq<(Seq<char>, u64)> {
    outputs.map_values(|o: OutputFile| (o.name@, o.size))
}

pub open spec fn receive_outcome(r: Result<ReceiveStep, EngineError>) -> ReceiveOutcome {
    match r {
        Ok(ReceiveStep::Greet { reply, peer_id, peer_device }) => ReceiveOutcome::Greet {
            reply: reply@,
            peer_id: peer_id@,
            peer_device: peer_device@,
        },
        Ok(ReceiveStep::AcceptTransfer { reply, outputs }) => ReceiveOutcome::AcceptTransfer {
            reply: reply@,
            outputs: outputs_view(outputs@),
        },
        Ok(ReceiveStep::Continue) => ReceiveOutcome::Continue,
        Ok(ReceiveStep::Finish) => ReceiveOutcome::Finish,
        Err(e) => ReceiveOutcome::Fail(e@),
    }
}

/// The files a receiver creates for the announced `files`: sanitised names
/// and announced sizes, in order.
pub open spec fn planned_outputs(files: Seq<FileMetaView>) -> Seq<(Seq<char>, u64)> {
    files.map_values(|f: FileMetaView| (sanitized_file_name(f.name), f.size))
}

/// The message with which either side refuses a peer speaking protocol
/// `version`.
pub open spec fn mismatch_text(version: Seq<char>) -> Seq<char> {
    "protocol mismatch: peer "@ + version + ", local "@ + PROTOCOL_VERSION@
}

/// The receiver's transition on one control-stream event (`None`: the
/// stream ended).
pub open spec fn receive_transition(s: ReceiveView, msg: Option<ControlView>) -> (
    ReceiveView,
    ReceiveOutcome,
) {
    let closed = ReceiveView { phase: ReceivePhase::Closed, ..s };
    match s.phase {
        ReceivePhase::AwaitHello => match msg {
            None => (closed, ReceiveOutcome::Fail((ErrorKind::Transfer, "peer closed before hello"@))),
            Some(ControlView::Hello { protocol_version, device_name, peer_id }) => {
                if protocol_version != PROTOCOL_VERSION@ {
                    (closed, ReceiveOutcome::Fail((ErrorKind::Transfer, mismatch_text(protocol_version))))
                } else {
                    (
                        ReceiveView {
                            phase: ReceivePhase::AwaitRequest,
                            peer_device: device_name,
                            peer_id: peer_id,
                            ..s
                        },
                        ReceiveOutcome::Greet {
                            reply: ControlView::HelloAck {
                                protocol_version: PROTOCOL_VERSION@,
                                device_name: s.device_name,
                                peer_id: s.node_id,
                            },
                            peer_id: peer_id,
                            peer_device: device_name,
                        },
                    )
                }
            },
            Some(_) => (closed, ReceiveOutcome::Fail((ErrorKind::Transfer, "expected Hello"@))),
        },
        ReceivePhase::AwaitRequest => match msg {
            None => (closed, ReceiveOutcome::Fail((ErrorKind::Transfer, "peer closed before request"@))),
            Some(ControlView::Request { transfer_id, files }) => (
                ReceiveView {
                    phase: ReceivePhase::Receiving,
                    transfer_id: transfer_id,
                    files: files,
                    ..s
                },
                ReceiveOutcome::AcceptTransfer {
                    reply: ControlView::Accept { transfer_id: transfer_id },
                    outputs: planned_outputs(files),
                },
            ),
            Some(_) => (closed, ReceiveOutcome::Fail((ErrorKind::Transfer, "expected Request"@))),
        },
        ReceivePhase::Receiving => match msg {
            None => (closed, ReceiveOutcome::Finish),
            Some(ControlView::Done { .. }) => (closed, ReceiveOutcome::Finish),
            Some(_) => (s, ReceiveOutcome::Continue),
        },
        ReceivePhase::Closed => (s, ReceiveOutcome::Finish),
    }
}

/// The output slot that a data stream with file index `file_index` goes to,
/// for a batch of `n` files: file indices are 1-based.
pub open spec fn data_slot(phase: ReceivePhase, n: nat, file_index: u32) -> Option<int> {
    if phase == ReceivePhase::Receiving && 1 <= file_index <= n {
        Some(file_index - 1)
    } else {
        None
    }
}

fn concat3(a: &str, b: &str, c: &str, d: &str) -> (r: String)
    ensures
        r@ == a@ + b@ + c@ + d@,
{
    let mut s = a.to_owned();
    s.append(b);
    s.append(c);
    s.append(d);
    s
}

fn output_files(files: &Vec<FileMeta>) -> (r: Vec<OutputFile>)
    ensures
        outputs_view(r@) == planned_outputs(metas_view(files@)),
{
    let mut r: Vec<OutputFile> = Vec::new();
    let mut i: usize = 0;
    while i < files.len()
        invariant
            i <= files.len(),
            outputs_view(r@) == planned_outputs(metas_view(files@.take(i as int))),
        decreases files.len() - i,
    {
        let ghost old_r = r@;
        let name = sanitize_file_name(files[i].name.as_str());
        let o = OutputFile { name, size: files[i].size };
        assert((o.name@, o.size) == (sanitized_file_name(files@[i as int]@.name), files@[i as int]@.size));
        r.push(o);
        assert(outputs_view(r@) =~= outputs_view(old_r).push((o.name@, o.size)));
        i = i + 1;
        assert(files@.take(i as int) =~= files@.take((i - 1) as int).push(files@[i - 1]));
        assert(metas_view(files@.take(i as int)) =~= metas_view(files@.take((i - 1) as int)).push(
            files@[i - 1]@,
        ));
        assert(outputs_view(r@) =~= planned_outputs(metas_view(files@.take(i as int))));
    }
    assert(files@.take(files.len() as int) =~= files@);
    r
}

impl ReceiveSession {
    /// The phase of the conversation.
    pub closed spec fn phase(&self) -> ReceivePhase {
        self.phase
    }

    /// A receiver that answers as `device_name` / `node_id` and waits for a
    /// `Hello`.
    pub fn new(device_name: &str, node_id: &str) -> (r: Self)
        ensures
            r@ == (ReceiveView {
                phase: ReceivePhase::AwaitHello,
                device_name: device_name@,
                node_id: node_id@,
                peer_device: Seq::empty(),
                peer_id: Seq::empty(),
                transfer_id: 0,
                files: Seq::empty(),
            }),
    {
        let r = ReceiveSession {
            phase: ReceivePhase::AwaitHello,
            device_name: device_name.to_owned(),
            node_id: node_id.to_owned(),
            peer_device: String::new(),
            peer_id: String::new(),
            transfer_id: 0,
            files: Vec::new(),
        };
        assert(metas_view(r.files@) =~= Seq::empty());
        r
    }

    /// Take in one event of the control stream: `Some(msg)` for a message,
    /// `None` when the stream ended.
    pub fn on_control(&mut self, msg: Option<ControlMessage>) -> (r: Result<ReceiveStep, EngineError>)
        ensures
            (final(self)@, receive_outcome(r)) == receive_transition(old(self)@, opt_view(msg)),
    {
        match self.phase {
            ReceivePhase::AwaitHello => match msg {
                None => {
                    self.phase = ReceivePhase::Closed;
                    Err(EngineError::transfer("peer closed before hello"))
                },
                Some(ControlMessage::Hello { protocol_version, device_name, peer_id }) => {
                    let expected = PROTOCOL_VERSION.to_owned();
                    if !(protocol_version == expected) {
                        self.phase = ReceivePhase::Closed;
                        let text = concat3(
                            "protocol mismatch: peer ",
                            protocol_version.as_str(),
                            ", local ",
                            PROTOCOL_VERSION,
                        );
                        return Err(EngineError::Transfer(text));
                    }
                    let reply = ControlMessage::hello_ack(self.device_name.as_str(), self.node_id.as_str());
                    self.phase = ReceivePhase::AwaitRequest;
                    self.peer_device = device_name.clone();
                    self.peer_id = peer_id.clone();
                    Ok(ReceiveStep::Greet { reply, peer_id, peer_device: device_name })
                },
                Some(_) => {
                    self.phase = ReceivePhase::Closed;
                    Err(EngineError::transfer("expected Hello"))
                },
            },
            ReceivePhase::AwaitRequest => match msg {
                None => {
                    self.phase = ReceivePhase::Closed;
                    Err(EngineError::transfer("peer closed before request"))
                },
                Some(ControlMessage::Request { transfer_id, files }) => {
                    let outputs = output_files(&files);
                    self.phase = ReceivePhase::Receiving;
                    self.transfer_id = transfer_id;
                    self.files = files;
                    Ok(ReceiveStep::AcceptTransfer { reply: ControlMessage::Accept { transfer_id }, outputs })
                },
                Some(_) => {
                    self.phase = ReceivePhase::Closed;
                    Err(EngineError::transfer("expected Request"))
                },
            },
            ReceivePhase::Receiving => match msg {
                None => {
                    self.phase = ReceivePhase::Closed;
                    Ok(ReceiveStep::Finish)
                },
                Some(ControlMessage::Done { .. }) => {
                    self.phase = ReceivePhase::Closed;
                    Ok(ReceiveStep::Finish)
                },
                Some(_) => Ok(ReceiveStep::Continue),
            },
            ReceivePhase::Closed => Ok(ReceiveStep::Finish),
        }
    }

    /// The output slot a data stream with `header` is written to. Refused
    /// unless the transfer was accepted and the header's 1-based file index
    /// names an announced file.
    pub fn data_target(&self, header: &StreamHeader) -> (r: Result<usize, EngineError>)
        ensures
            match data_slot(self@.phase, self@.files.len(), header.file_index) {
                Some(slot) => r matches Ok(i) && i == slot,
                None => r matches Err(e) && e@ == (ErrorKind::Transfer, "bad file index"@),
            },
    {
        let idx = header.file_index as usize;
        match self.phase {
            ReceivePhase::Receiving => {
                if idx >= 1 && idx <= self.files.len() {
                    Ok(idx - 1)
                } else {
                    Err(EngineError::transfer("bad file index"))
                }
            },
            _ => Err(EngineError::transfer("bad file index")),
        }
    }

    /// The announced metadata of the file in output slot `slot`.
    pub fn announced_file(&self, slot: usize) -> (r: &FileMeta)
        requires
            slot < self@.files.len(),
        ensures
            r@ == self@.files[slot as int],
    {
        &self.files[slot]
    }
}


// ---------------------------------------------------------------------------
// Sending side
// ---------------------------------------------------------------------------

/// Where the initiating peer stands in the conversation.
#[derive(PartialEq, Eq, Structural, Clone, Copy, Debug)]
pub enum SendPhase {
    AwaitHelloAck,
    AwaitAccept,
    Transferring,
    Closed,
}

/// The initiating peer's state.
pub struct SendSession {
    phase: SendPhase,
    transfer_id: u64,
    files: Vec<FileMeta>,
}

/// What a `SendSession` holds, as plain values.
pub struct SendView {
    pub phase: SendPhase,
    pub transfer_id: u64,
    pub files: Seq<FileMetaView>,
}

impl View for SendSession {
    type V = SendView;

    closed spec fn view(&self) -> SendView {
        SendView { phase: self.phase, transfer_id: self.transfer_id, files: metas_view(self.files@) }
    }
}

/// What the application does after a reply reached the sender.
#[derive(Debug)]
pub enum SendStep {
    /// The hello was acknowledged: send this `Request`.
    SendRequest(ControlMessage),
    /// The transfer was accepted: send these files, in order, each on its
    /// own data streams (their `file_index` is their 1-based position).
    SendFiles(Vec<FileMeta>),
    /// Nothing to do.
    Continue,
}

/// The view of a sender step (or of the error that ends the conversation).
pub enum SendOutcome {
    SendRequest(ControlView),
    SendFiles(Seq<FileMetaView>),
    Continue,
    Fail((ErrorKind, Seq<char>)),
}

pub open spec fn send_outcome(r: Result<SendStep, EngineError>) -> SendOutcome {
    match r {
        Ok(SendStep::SendRequest(m)) => SendOutcome::SendRequest(m@),
        Ok(SendStep::SendFiles(files)) => SendOutcome::SendFiles(metas_view(files@)),
        Ok(SendStep::Continue) => SendOutcome::Continue,
        Err(e) => SendOutcome::Fail(e@),
    }
}

/// `files` renumbered by position: the `i`-th gets file index `i + 1`.
pub open spec fn numbered(files: Seq<FileMetaView>) -> Seq<FileMetaView> {
    Seq::new(
        files.len(),
        |i: int| FileMetaView { file_index: (i + 1) as u32, ..files[i] },
    )
}

/// The sender's transition on one reply (`None`: the control stream ended).
pub open spec fn send_transition(s: SendView, msg: Option<ControlView>) -> (SendView, SendOutcome) {
    let closed = SendView { phase: SendPhase::Closed, ..s };
    match s.phase {
        SendPhase::AwaitHelloAck => match msg {
            None => (closed, SendOutcome::Fail((ErrorKind::Transfer, "peer closed during handshake"@))),
            Some(ControlView::HelloAck { protocol_version, .. }) => {
                if protocol_version != PROTOCOL_VERSION@ {
                    (closed, SendOutcome::Fail((ErrorKind::Transfer, mismatch_text(protocol_version))))
                } else {
                    (
                        SendView { phase: SendPhase::AwaitAccept, ..s },
                        SendOutcome::SendRequest(
                            ControlView::Request { transfer_id: s.transfer_id, files: s.files },
                        ),
                    )
                }
            },
            Some(_) => (closed, SendOutcome::Fail((ErrorKind::Transfer, "peer did not ack hello"@))),
        },
        SendPhase::AwaitAccept => match msg {
            None => (closed, SendOutcome::Fail((ErrorKind::Transfer, "peer closed during accept"@))),
            Some(ControlView::Accept { .. }) => (
                SendView { phase: SendPhase::Transferring, ..s },
                SendOutcome::SendFiles(numbered(s.files)),
            ),
            Some(ControlView::Reject { reason, .. }) => (
                closed,
                SendOutcome::Fail((ErrorKind::Transfer, "peer rejected: "@ + reason)),
            ),
            Some(_) => (closed, SendOutcome::Fail((ErrorKind::Transfer, "peer did not accept"@))),
        },
        _ => (s, SendOutcome::Continue),
    }
}

/// `files` renumbered by position: the `i`-th gets file index `i + 1`.
pub fn number_files(files: &Vec<FileMeta>) -> (r: Vec<FileMeta>)
    ensures
        metas_view(r@) == numbered(metas_view(files@)),
{
    let mut r: Vec<FileMeta> = Vec::new();
    let mut i: usize = 0;
    while i < files.len()
        invariant
            i <= files.len(),
            r@.len() == i,
            forall|k: int| 0 <= k < i ==> #[trigger] r@[k]@ == numbered(metas_view(files@))[k],
        decreases files.len() - i,
    {
        let mut m = files[i].duplicate();
        m.file_index = (i + 1) as u32;
        r.push(m);
        i = i + 1;
    }
    assert(metas_view(r@) =~= numbered(metas_view(files@)));
    r
}

impl SendSession {
    /// Open the conversation for transfer `transfer_id` of `files`: the
    /// session and the `Hello` to send first.
    pub fn start(device_name: &str, node_id: &str, transfer_id: u64, files: Vec<FileMeta>) -> (r: (
        Self,
        ControlMessage,
    ))
        ensures
            r.0@ == (SendView {
                phase: SendPhase::AwaitHelloAck,
                transfer_id: transfer_id,
                files: metas_view(files@),
            }),
            r.1@ == (ControlView::Hello {
                protocol_version: PROTOCOL_VERSION@,
                device_name: device_name@,
                peer_id: node_id@,
            }),
    {
        let hello = ControlMessage::hello(device_name, node_id);
        (SendSession { phase: SendPhase::AwaitHelloAck, transfer_id, files }, hello)
    }

    /// Take in the peer's reply on the control stream (`None` when the
    /// stream ended).
    pub fn on_reply(&mut self, msg: Option<ControlMessage>) -> (r: Result<SendStep, EngineError>)
        ensures
            (final(self)@, send_outcome(r)) == send_transition(old(self)@, opt_view(msg)),
    {
        match self.phase {
            SendPhase::AwaitHelloAck => match msg {
                None => {
                    self.phase = SendPhase::Closed;
                    Err(EngineError::transfer("peer closed during handshake"))
                },
                Some(ControlMessage::HelloAck { protocol_version, .. }) => {
                    let expected = PROTOCOL_VERSION.to_owned();
                    if !(protocol_version == expected) {
                        self.phase = SendPhase::Closed;
                        let text = concat3(
                            "protocol mismatch: peer ",
                            protocol_version.as_str(),
                            ", local ",
                            PROTOCOL_VERSION,
                        );
                        return Err(EngineError::Transfer(text));
                    }
                    self.phase = SendPhase::AwaitAccept;
                    let files = duplicate_metas(&self.files);
                    Ok(SendStep::SendRequest(ControlMessage::Request { transfer_id: self.transfer_id, files }))
                },
                Some(_) => {
                    self.phase = SendPhase::Closed;
                    Err(EngineError::transfer("peer did not ack hello"))
                },
            },
            SendPhase::AwaitAccept => match msg {
                None => {
                    self.phase = SendPhase::Closed;
                    Err(EngineError::transfer("peer closed during accept"))
                },
                Some(ControlMessage::Accept { .. }) => {
                    self.phase = SendPhase::Transferring;
                    Ok(SendStep::SendFiles(number_files(&self.files)))
                },
                Some(ControlMessage::Reject { reason, .. }) => {
                    self.phase = SendPhase::Closed;
                    let mut text = "peer rejected: ".to_owned();
                    text.append(reason.as_str());
                    Err(EngineError::Transfer(text))
                },
                Some(_) => {
                    self.phase = SendPhase::Closed;
                    Err(EngineError::transfer("peer did not accept"))
                },
            },
            _ => Ok(SendStep::Continue),
        }
    }

    /// The `Done` message that ends the batch; the conversation is over.
    pub fn finish(&mut self) -> (r: ControlMessage)
        ensures
            r@ == (ControlView::Done { transfer_id: old(self)@.transfer_id, name: "batch"@ }),
            final(self)@ == (SendView { phase: SendPhase::Closed, ..old(self)@ }),
    {
        self.phase = SendPhase::Closed;
        ControlMessage::Done { transfer_id: self.transfer_id, name: "batch".to_owned() }
    }
}

// ---------------------------------------------------------------------------
// Laws of the conversation
// ---------------------------------------------------------------------------

/// A closed receiver stays closed and only ever answers `Finish`.
pub proof fn lemma_receiver_closed_is_final(s: ReceiveView, msg: Option<ControlView>)
    requires
        s.phase == ReceivePhase::Closed,
    ensures
        receive_transition(s, msg) == (s, ReceiveOutcome::Finish),
{
}

/// A receiver never accepts a transfer from a peer with another protocol
/// version: such a hello ends the conversation with an error.
pub proof fn lemma_receiver_refuses_version_mismatch(
    s: ReceiveView,
    version: Seq<char>,
    device_name: Seq<char>,
    peer_id: Seq<char>,
)
    requires
        s.phase == ReceivePhase::AwaitHello,
        version != PROTOCOL_VERSION@,
    ensures
        receive_transition(
            s,
            Some(ControlView::Hello { protocol_version: version, device_name, peer_id }),
        ).0.phase == ReceivePhase::Closed,
        receive_transition(
            s,
            Some(ControlView::Hello { protocol_version: version, device_name, peer_id }),
        ).1 is Fail,
{
}

/// A sender never sends its request to a peer that answers with another
/// protocol version: such a reply ends the conversation with an error.
pub proof fn lemma_sender_refuses_version_mismatch(
    s: SendView,
    version: Seq<char>,
    device_name: Seq<char>,
    peer_id: Seq<char>,
)
    requires
        s.phase == SendPhase::AwaitHelloAck,
        version != PROTOCOL_VERSION@,
    ensures
        send_transition(
            s,
            Some(ControlView::HelloAck { protocol_version: version, device_name, peer_id }),
        ) == (
            SendView { phase: SendPhase::Closed, ..s },
            SendOutcome::Fail((ErrorKind::Transfer, mismatch_text(version))),
        ),
{
}

/// Accepting a request plans exactly one output per announced file, in the
/// announced order and whatever its size (empty files included): the
/// sanitised name and the announced size. Each announced file's 1-based
/// index then routes to its own output.
pub proof fn lemma_accept_plans_every_file(s: ReceiveView, transfer_id: u64, files: Seq<FileMetaView>)
    requires
        s.phase == ReceivePhase::AwaitRequest,
    ensures
        ({
            let (s2, out) = receive_transition(
                s,
                Some(ControlView::Request { transfer_id, files }),
            );
            &&& out matches ReceiveOutcome::AcceptTransfer { reply, outputs } && reply
                == ControlView::Accept { transfer_id } && outputs.len() == files.len() && (forall|i: int|
                0 <= i < files.len() ==> #[trigger] outputs[i] == (
                    sanitized_file_name(files[i].name),
                    files[i].size,
                ))
            &&& forall|i: int|
                0 <= i < files.len() && i + 1 <= u32::MAX ==> #[trigger] data_slot(
                    s2.phase,
                    s2.files.len(),
                    (i + 1) as u32,
                ) == Some(i)
        }),
{
}

/// The receiver routes data only after it accepted a request: before that
/// every data stream is refused.
pub proof fn lemma_no_data_before_accept(s: ReceiveView, file_index: u32)
    requires
        s.phase != ReceivePhase::Receiving,
    ensures
        data_slot(s.phase, s.files.len(), file_index) is None,
{
}

/// The sender sends files only after the peer accepted: from any phase but
/// `AwaitAccept`, no reply makes it send files, and from `AwaitAccept` only
/// an `Accept` does.
pub proof fn lemma_files_only_after_accept(s: SendView, msg: Option<ControlView>)
    ensures
        send_transition(s, msg).1 is SendFiles ==> s.phase == SendPhase::AwaitAccept && msg matches Some(
            ControlView::Accept { .. },
        ),
{
}

/// The whole conversation between a fresh sender and a fresh receiver: the
/// hello is acknowledged, the request is accepted with the sender's transfer
/// id, the receiver plans one output per announced file, the sender then
/// sends the files numbered from 1, each of which the receiver routes to its
/// own slot, and the sender's `Done` ends the receiver's side.
pub proof fn lemma_handshake_reaches_transfer(
    sender_name: Seq<char>,
    sender_id: Seq<char>,
    receiver_name: Seq<char>,
    receiver_id: Seq<char>,
    transfer_id: u64,
    files: Seq<FileMetaView>,
)
    requires
        files.len() < u32::MAX,
    ensures
        ({
            let s0 = SendView { phase: SendPhase::AwaitHelloAck, transfer_id, files };
            let hello = ControlView::Hello {
                protocol_version: PROTOCOL_VERSION@,
                device_name: sender_name,
                peer_id: sender_id,
            };
            let r0 = ReceiveView {
                phase: ReceivePhase::AwaitHello,
                device_name: receiver_name,
                node_id: receiver_id,
                peer_device: Seq::empty(),
                peer_id: Seq::empty(),
                transfer_id: 0,
                files: Seq::empty(),
            };
            let (r1, greet) = receive_transition(r0, Some(hello));
            let ack = ControlView::HelloAck {
                protocol_version: PROTOCOL_VERSION@,
                device_name: receiver_name,
                peer_id: receiver_id,
            };
            let (s1, req) = send_transition(s0, Some(ack));
            let request = ControlView::Request { transfer_id, files };
            let (r2, acc) = receive_transition(r1, Some(request));
            let (s2, go) = send_transition(s1, Some(ControlView::Accept { transfer_id }));
            &&& greet == ReceiveOutcome::Greet { reply: ack, peer_id: sender_id, peer_device: sender_name }
            &&& r1.peer_id == sender_id
            &&& req == SendOutcome::SendRequest(request)
            &&& acc == ReceiveOutcome::AcceptTransfer {
                reply: ControlView::Accept { transfer_id },
                outputs: planned_outputs(files),
            }
            &&& r2.phase == ReceivePhase::Receiving
            &&& r2.transfer_id == transfer_id
            &&& go == SendOutcome::SendFiles(numbered(files))
            &&& s2.phase == SendPhase::Transferring
            &&& forall|i: int|
                0 <= i < files.len() ==> data_slot(
                    r2.phase,
                    r2.files.len(),
                    #[trigger] numbered(files)[i].file_index,
                ) == Some(i)
            &&& receive_transition(
                r2,
                Some(ControlView::Done { transfer_id, name: "batch"@ }),
            ).1 == ReceiveOutcome::Finish
        }),
{
}

} // verus!
