//! Engine configuration and protocol constants.

use vstd::prelude::*;

verus! {

/// Version of the MorseLink wire protocol. Bumped whenever the framing or
/// capabilities change; peers refuse to talk across incompatible versions.
pub const PROTOCOL_VERSION: &'static str = "morselink/1.0";

/// Namespace used for mDNS service discovery (matches the desktop client).
pub const MDNS_SERVICE_TYPE: &'static str = "_morselink._udp.local.";

/// Default UDP multicast group for IPv4 link-local discovery.
pub const DISCOVERY_MULTICAST_GROUP: &'static str = "239.255.60.42";

/// Default UDP port for IPv4 link-local discovery.
pub const DISCOVERY_MULTICAST_PORT: u16 = 45842;

/// Size of the byte range of a file that one data stream carries (4 MiB).
pub const DEFAULT_CHUNK_SIZE: u64 = 4194304;

/// Streams opened concurrently per connection (upper bound).
pub const MAX_CONCURRENT_STREAMS: u32 = 32;

/// Configuration consumed by the engine.
#[derive(Debug, Clone)]
pub struct EngineConfig {
    /// Address the QUIC endpoint binds to.
    pub listen_addr: String,
    /// UDP port. `0` means "pick an ephemeral port".
    pub port: u16,
    /// TLS SNI name used by both sides (the self-signed certificate names it).
    pub server_name: String,
    /// Human-friendly name advertised via discovery.
    pub device_name: String,
    /// Whether to run the local-network discovery loop.
    pub enable_discovery: bool,
}

impl EngineConfig {
    /// The configuration that `Default` and `new` produce.
    pub open spec fn is_default(self) -> bool {
        &&& self.listen_addr@ == "0.0.0.0"@
        &&& self.port == 0
        &&& self.server_name@ == "morselink.local"@
        &&& self.device_name@ == "MorseLink device"@
        &&& self.enable_discovery
    }

    /// Same as `EngineConfig::default()`.
    pub fn new() -> (r: Self)
        ensures
            r.is_default(),
    {
        Self::default()
    }
}

impl Default for EngineConfig {
    fn default() -> (r: Self)
        ensures
            r.is_default(),
    {
        EngineConfig {
            listen_addr: "0.0.0.0".to_owned(),
            port: 0,
            server_name: "morselink.local".to_owned(),
            device_name: "MorseLink device".to_owned(),
            enable_discovery: true,
        }
    }
}

} // verus!
