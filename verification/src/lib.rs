//! MorseLink shared core engine: the verified part.
//!
//! Wire framing, chunk planning, control-message handshakes, file-name and
//! host-name sanitising, MIME guessing, node identifiers and the discovery
//! peer table. Sockets, QUIC streams, TLS, the async runtime and JSON
//! encoding live in the surrounding application.

pub mod config;
pub mod error;

pub use config::{DEFAULT_CHUNK_SIZE, PROTOCOL_VERSION};
pub mod text;
pub mod transfer;
pub mod protocol;
pub mod session;
pub mod discovery;
pub mod identity;
pub mod paths;
pub mod engine;
pub mod cli;
pub mod desktop;
pub mod transport;
pub mod resume;

use vstd::prelude::*;

verus! {

/// The wire protocol version, as a plain string (used by scripts and logs).
pub fn protocol_version() -> (r: &'static str)
    ensures
        r@ == PROTOCOL_VERSION@,
{
    PROTOCOL_VERSION
}

/// Short, stable device identifier for discovery identity: `morse-` and
/// eight hexadecimal digits taken from the wall clock.
pub fn make_node_id() -> (r: String)
    ensures
        exists|nanos: u128| r@ == #[trigger] identity::node_id_text(nanos),
{
    let nanos = identity::epoch_nanos();
    identity::node_id_from_nanos(nanos)
}

} // verus!
