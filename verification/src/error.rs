//! Error type of the engine.

use vstd::prelude::*;

verus! {

/// The engine's single error type: a high-level kind (used to drive UI
/// messaging) carrying a human-readable message.
#[derive(Debug)]
pub enum EngineError {
    Transport(String),
    Discovery(String),
    Transfer(String),
    Io(String),
}

/// The kind of an `EngineError`, as its view shows it.
#[derive(PartialEq, Eq, Structural, Clone, Copy, Debug)]
pub enum ErrorKind {
    Transport,
    Discovery,
    Transfer,
    Io,
}

impl View for EngineError {
    type V = (ErrorKind, Seq<char>);

    open spec fn view(&self) -> (ErrorKind, Seq<char>) {
        match self {
            EngineError::Transport(m) => (ErrorKind::Transport, m@),
            EngineError::Discovery(m) => (ErrorKind::Discovery, m@),
            EngineError::Transfer(m) => (ErrorKind::Transfer, m@),
            EngineError::Io(m) => (ErrorKind::Io, m@),
        }
    }
}

/// Where an outside failure came from; selects the kind and the message
/// prefix of the `EngineError` it becomes.
#[derive(PartialEq, Eq, Structural, Clone, Copy, Debug)]
pub enum FailureSource {
    /// A local file or socket operation.
    Io,
    /// Encoding or decoding a JSON control message.
    Serialization,
    /// Starting a QUIC connection.
    Connect,
    /// An established QUIC connection.
    Connection,
    /// Writing to a QUIC stream.
    Write,
    /// Reading from a QUIC stream.
    Read,
    /// Finishing a QUIC stream.
    Finish,
}

/// The kind and message that an outside failure with description `detail`
/// turns into.
pub open spec fn failure_view(source: FailureSource, detail: Seq<char>) -> (ErrorKind, Seq<char>) {
    match source {
        FailureSource::Io => (ErrorKind::Io, detail),
        FailureSource::Serialization => (ErrorKind::Transport, "protocol serialization: "@ + detail),
        FailureSource::Connect => (ErrorKind::Transport, "connect: "@ + detail),
        FailureSource::Connection => (ErrorKind::Transport, "connection: "@ + detail),
        FailureSource::Write => (ErrorKind::Transport, "write: "@ + detail),
        FailureSource::Read => (ErrorKind::Transport, "read: "@ + detail),
        FailureSource::Finish => (ErrorKind::Transport, "finish: "@ + detail),
    }
}

/// The text that the error displays as.
pub open spec fn error_text(e: (ErrorKind, Seq<char>)) -> Seq<char> {
    match e.0 {
        ErrorKind::Transport => "transport error: "@ + e.1,
        ErrorKind::Discovery => "discovery error: "@ + e.1,
        ErrorKind::Transfer => "transfer error: "@ + e.1,
        ErrorKind::Io => "io error: "@ + e.1,
    }
}

fn prefixed(prefix: &str, detail: &str) -> (r: String)
    ensures
        r@ == prefix@ + detail@,
{
    let mut s = prefix.to_owned();
    s.append(detail);
    s
}

impl EngineError {
    /// A transport error carrying `msg`.
    pub fn transport(msg: &str) -> (r: Self)
        ensures
            r@ == (ErrorKind::Transport, msg@),
    {
        EngineError::Transport(msg.to_owned())
    }

    /// A discovery error carrying `msg`.
    pub fn discovery(msg: &str) -> (r: Self)
        ensures
            r@ == (ErrorKind::Discovery, msg@),
    {
        EngineError::Discovery(msg.to_owned())
    }

    /// A transfer error carrying `msg`.
    pub fn transfer(msg: &str) -> (r: Self)
        ensures
            r@ == (ErrorKind::Transfer, msg@),
    {
        EngineError::Transfer(msg.to_owned())
    }

    /// The error that an outside failure from `source`, described by
    /// `detail`, becomes.
    pub fn from_failure(source: FailureSource, detail: &str) -> (r: Self)
        ensures
            r@ == failure_view(source, detail@),
    {
        match source {
            FailureSource::Io => EngineError::Io(detail.to_owned()),
            FailureSource::Serialization => EngineError::Transport(
                prefixed("protocol serialization: ", detail),
            ),
            FailureSource::Connect => EngineError::Transport(prefixed("connect: ", detail)),
            FailureSource::Connection => EngineError::Transport(prefixed("connection: ", detail)),
            FailureSource::Write => EngineError::Transport(prefixed("write: ", detail)),
            FailureSource::Read => EngineError::Transport(prefixed("read: ", detail)),
            FailureSource::Finish => EngineError::Transport(prefixed("finish: ", detail)),
        }
    }

    /// The human-readable text of the error.
    pub fn message(&self) -> (r: String)
        ensures
            r@ == error_text(self@),
    {
        match self {
            EngineError::Transport(m) => prefixed("transport error: ", m.as_str()),
            EngineError::Discovery(m) => prefixed("discovery error: ", m.as_str()),
            EngineError::Transfer(m) => prefixed("transfer error: ", m.as_str()),
            EngineError::Io(m) => prefixed("io error: ", m.as_str()),
        }
    }
}

} // verus!
