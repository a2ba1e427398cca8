//! QUIC transport setup: ephemeral self-signed TLS 1.3 certificates and the
//! QUIC server/client configurations built on them.
//!
//! MorseLink is a zero-trust, zero-cloud LAN app: certificates are generated
//! fresh for every session and nothing is persisted. Certificates and keys
//! travel as DER bytes; the TLS configurations are built on rustls's *ring*
//! provider.

use vstd::prelude::*;

use quinn::crypto::rustls::{NoInitialCipherSuite, QuicClientConfig, QuicServerConfig};
use quinn::{ClientConfig, ServerConfig, TransportConfig};
use rustls::pki_types::{CertificateDer, PrivateKeyDer};
use rustls::RootCertStore;

use crate::config::MAX_CONCURRENT_STREAMS;
use crate::error::{EngineError, ErrorKind};
use crate::text::{decimal, push_decimal};

verus! {

#[verifier::external_type_specification]
#[verifier::external_body]
pub struct ExRcgenError(rcgen::Error);

#[verifier::external_type_specification]
#[verifier::external_body]
pub struct ExRustlsServerConfig(rustls::ServerConfig);

#[verifier::external_type_specification]
#[verifier::external_body]
pub struct ExRustlsClientConfig(rustls::ClientConfig);

#[verifier::external_type_specification]
#[verifier::external_body]
pub struct ExRootCertStore(RootCertStore);

#[verifier::external_type_specification]
#[verifier::external_body]
pub struct ExRustlsError(rustls::Error);

#[verifier::external_type_specification]
#[verifier::external_body]
pub struct ExQuicServerConfig(QuicServerConfig);

#[verifier::external_type_specification]
#[verifier::external_body]
pub struct ExQuicClientConfig(QuicClientConfig);

#[verifier::external_type_specification]
#[verifier::external_body]
pub struct ExNoInitialCipherSuite(NoInitialCipherSuite);

#[verifier::external_type_specification]
#[verifier::external_body]
pub struct ExServerConfig(ServerConfig);

#[verifier::external_type_specification]
#[verifier::external_body]
pub struct ExClientConfig(ClientConfig);

#[verifier::external_type_specification]
#[verifier::external_body]
pub struct ExTransportConfig(TransportConfig);

/// A rustls server configuration built on the *ring* provider.
struct RingServerTls {
    tls: rustls::ServerConfig,
}

/// A rustls client configuration built on the *ring* provider.
struct RingClientTls {
    tls: rustls::ClientConfig,
}

// ---------------------------------------------------------------------------
// Calls into rcgen, rustls and quinn
// ---------------------------------------------------------------------------

/// Whether `cert` (DER) and `key` (PKCS#8 DER) are a self-signed pair that
/// `rcgen::generate_simple_self_signed(names)` makes: the certificate lists
/// exactly `names`, in order, as its subject alternative names (each as the
/// text it was requested with), its subject public key is the public key of
/// `key`, and it is signed with `key`.
pub uninterp spec fn issued_self_signed(cert: Seq<u8>, key: Seq<u8>, names: Seq<Seq<char>>) -> bool;

/// The subjects of the trust anchors that a rustls client configuration
/// verifies servers against, in order.
pub uninterp spec fn tls_client_trusted_subjects(c: rustls::ClientConfig) -> Seq<Seq<u8>>;

/// The subjects of the trust anchors of the rustls configuration inside a
/// QUIC client TLS configuration, in order.
pub uninterp spec fn quic_client_trusted_subjects(q: QuicClientConfig) -> Seq<Seq<u8>>;

/// The subjects of the trust anchors of the TLS configuration inside a quinn
/// client configuration, in order.
pub uninterp spec fn client_trusted_subjects(cfg: ClientConfig) -> Seq<Seq<u8>>;

/// The transport parameters a `TransportConfig` holds: its limit on
/// concurrent bidirectional streams, on unidirectional streams, and its
/// keep-alive interval in nanoseconds (`None`: no keep-alive).
pub uninterp spec fn transport_params(t: TransportConfig) -> (u64, u64, Option<u128>);

/// The transport parameters of the transport configuration a quinn server
/// configuration holds.
pub uninterp spec fn server_transport_params(cfg: ServerConfig) -> (u64, u64, Option<u128>);

/// The transport parameters of the transport configuration a quinn client
/// configuration holds.
pub uninterp spec fn client_transport_params(cfg: ClientConfig) -> (u64, u64, Option<u128>);

/// Whether rustls, with the *ring* provider, accepts the DER certificate
/// `cert` with the PKCS#8 private key `key` as a server identity: the key
/// loads and its public key is consistent with the certificate's.
pub uninterp spec fn server_identity_accepted(cert: Seq<u8>, key: Seq<u8>) -> bool;

/// The DER subject of the trust anchor that webpki's
/// `anchor_from_trusted_cert` takes from the DER certificate `cert`; `None`
/// when the certificate does not parse.
pub uninterp spec fn trust_anchor_subject(cert: Seq<u8>) -> Option<Seq<u8>>;

/// What a `RootCertStore` holds: the DER subject of each of its trust
/// anchors (its `roots` vector), in order.
pub uninterp spec fn root_store_subjects(store: RootCertStore) -> Seq<Seq<u8>>;

/// `rcgen::generate_simple_self_signed(names)`, then the DER encodings of the
/// certificate (`Certificate::der`) and of its freshly generated local key
/// pair (`KeyPair::serialize_der`, PKCS#8): a certificate for `names`, signed
/// with the key it carries. The key is random, so its bytes are not stated.
#[verifier::external_body]
fn self_signed(names: Vec<String>) -> (r: Result<(Vec<u8>, Vec<u8>), rcgen::Error>)
    ensures
        r matches Ok((cert, key)) ==> issued_self_signed(
            cert@,
            key@,
            names@.map_values(|s: String| s@),
        ),
{
    match rcgen::generate_simple_self_signed(names) {
        Ok(ck) => Ok((ck.cert.der().to_vec(), ck.key_pair.serialize_der())),
        Err(e) => Err(e),
    }
}

/// The `Display` text of an rcgen error.
#[verifier::external_body]
fn rcgen_error_text(e: &rcgen::Error) -> String {
    format!("{}", e)
}

/// The `Display` text of a rustls error.
#[verifier::external_body]
fn rustls_error_text(e: &rustls::Error) -> String {
    format!("{}", e)
}

/// The `Display` text of quinn's `NoInitialCipherSuite`.
#[verifier::external_body]
fn cipher_suite_error_text(e: &NoInitialCipherSuite) -> String {
    format!("{}", e)
}

/// The rustls builder chain `ServerConfig::builder_with_provider` (ring),
/// `.with_safe_default_protocol_versions()`, `.with_no_client_auth()`,
/// `.with_single_cert([cert], key)`: a TLS server configuration presenting
/// the DER certificate `cert` with the PKCS#8 key `key`, or rustls's refusal.
/// The protocol-version step always succeeds with ring (it has suites and
/// key-exchange groups), so the outcome is whether the identity is accepted.
#[verifier::external_body]
fn rustls_server_config(cert: Vec<u8>, key: Vec<u8>) -> (r: Result<RingServerTls, rustls::Error>)
    ensures
        r is Ok <==> server_identity_accepted(cert@, key@),
{
    let provider = std::sync::Arc::new(rustls::crypto::ring::default_provider());
    match rustls::ServerConfig::builder_with_provider(provider).with_safe_default_protocol_versions() {
        Ok(b) => match b.with_no_client_auth().with_single_cert(
            vec![CertificateDer::from(cert)],
            PrivateKeyDer::Pkcs8(key.into()),
        ) {
            Ok(tls) => Ok(RingServerTls { tls }),
            Err(e) => Err(e),
        },
        Err(e) => Err(e),
    }
}

/// The rustls builder chain `ClientConfig::builder_with_provider` (ring),
/// `.with_safe_default_protocol_versions()`, `.with_root_certificates(roots)`,
/// `.with_no_client_auth()`: a TLS client configuration trusting exactly
/// `roots`. The protocol-version step always succeeds with ring.
#[verifier::external_body]
fn rustls_client_config(roots: RootCertStore) -> (r: Result<RingClientTls, rustls::Error>)
    ensures
        r is Ok,
        r is Ok ==> tls_client_trusted_subjects(r->Ok_0.tls) == root_store_subjects(roots),
{
    let provider = std::sync::Arc::new(rustls::crypto::ring::default_provider());
    match rustls::ClientConfig::builder_with_provider(provider).with_safe_default_protocol_versions() {
        Ok(b) => Ok(RingClientTls { tls: b.with_root_certificates(roots).with_no_client_auth() }),
        Err(e) => Err(e),
    }
}

/// `RootCertStore::empty`: a store with no trust anchor.
#[verifier::external_body]
fn empty_root_store() -> (r: RootCertStore)
    ensures
        root_store_subjects(r) == Seq::<Seq<u8>>::empty(),
{
    RootCertStore::empty()
}

/// `RootCertStore::add` of the DER certificate `cert`: when webpki takes a
/// trust anchor from it, the anchor is pushed at the end of the store's
/// roots and `Ok` returned; otherwise the store is unchanged and the error
/// returned.
#[verifier::external_body]
fn add_root(store: &mut RootCertStore, cert: Vec<u8>) -> (r: Result<(), rustls::Error>)
    ensures
        match trust_anchor_subject(cert@) {
            Some(subject) => r is Ok && root_store_subjects(*final(store)) == root_store_subjects(
                *old(store),
            ).push(subject),
            None => r is Err && root_store_subjects(*final(store)) == root_store_subjects(*old(store)),
        },
{
    store.add(CertificateDer::from(cert))
}

/// `QuicServerConfig::try_from` a ring-built rustls server configuration.
/// It fails only when the provider lacks TLS13_AES_128_GCM_SHA256, which
/// ring's default provider has, so it succeeds.
#[verifier::external_body]
fn quic_server_crypto(c: RingServerTls) -> (r: Result<QuicServerConfig, NoInitialCipherSuite>)
    ensures
        r is Ok,
{
    QuicServerConfig::try_from(c.tls)
}

/// `QuicClientConfig::try_from` a ring-built rustls client configuration.
/// It fails only when the provider lacks TLS13_AES_128_GCM_SHA256, which
/// ring's default provider has, so it succeeds.
#[verifier::external_body]
fn quic_client_crypto(c: RingClientTls) -> (r: Result<QuicClientConfig, NoInitialCipherSuite>)
    ensures
        r is Ok,
        r is Ok ==> quic_client_trusted_subjects(r->Ok_0) == tls_client_trusted_subjects(c.tls),
{
    QuicClientConfig::try_from(c.tls)
}

/// `quinn::ServerConfig::with_crypto`, with the default transport
/// configuration.
#[verifier::external_body]
fn quinn_server_config(crypto: QuicServerConfig) -> (r: ServerConfig)
    ensures
        server_transport_params(r) == (100u64, 100u64, None::<u128>),
{
    ServerConfig::with_crypto(std::sync::Arc::new(crypto))
}

/// `quinn::ClientConfig::new`: a client configuration over `crypto`, with
/// the default transport configuration.
#[verifier::external_body]
fn quinn_client_config(crypto: QuicClientConfig) -> (r: ClientConfig)
    ensures
        client_trusted_subjects(r) == quic_client_trusted_subjects(crypto),
        client_transport_params(r) == (100u64, 100u64, None::<u128>),
{
    ClientConfig::new(std::sync::Arc::new(crypto))
}

/// `TransportConfig::default`: 100 bidirectional and 100 unidirectional
/// streams, no keep-alive.
#[verifier::external_body]
fn default_transport() -> (r: TransportConfig)
    ensures
        transport_params(r) == (100u64, 100u64, None::<u128>),
{
    TransportConfig::default()
}

/// `TransportConfig::max_concurrent_bidi_streams`: the bidirectional limit
/// becomes `n`, the rest is kept.
#[verifier::external_body]
fn set_max_bidi_streams(t: &mut TransportConfig, n: u32)
    ensures
        transport_params(*final(t)) == (n as u64, transport_params(*old(t)).1, transport_params(
            *old(t),
        ).2),
{
    t.max_concurrent_bidi_streams(n.into());
}

/// `TransportConfig::max_concurrent_uni_streams`: the unidirectional limit
/// becomes `n`, the rest is kept.
#[verifier::external_body]
fn set_max_uni_streams(t: &mut TransportConfig, n: u32)
    ensures
        transport_params(*final(t)) == (transport_params(*old(t)).0, n as u64, transport_params(
            *old(t),
        ).2),
{
    t.max_concurrent_uni_streams(n.into());
}

/// `TransportConfig::keep_alive_interval(Some(Duration::from_secs(secs)))`:
/// a keep-alive every `secs` seconds, the rest is kept.
#[verifier::external_body]
fn set_keep_alive_secs(t: &mut TransportConfig, secs: u64)
    ensures
        transport_params(*final(t)) == (
            transport_params(*old(t)).0,
            transport_params(*old(t)).1,
            Some((secs * 1_000_000_000) as u128),
        ),
{
    t.keep_alive_interval(Some(std::time::Duration::from_secs(secs)));
}

/// `quinn::ServerConfig::transport_config`: the server uses `t`.
#[verifier::external_body]
fn set_server_transport(cfg: &mut ServerConfig, t: TransportConfig)
    ensures
        server_transport_params(*final(cfg)) == transport_params(t),
{
    cfg.transport_config(std::sync::Arc::new(t));
}

/// `quinn::ClientConfig::transport_config`: the client uses `t`; its TLS
/// configuration is kept.
#[verifier::external_body]
fn set_client_transport(cfg: &mut ClientConfig, t: TransportConfig)
    ensures
        client_transport_params(*final(cfg)) == transport_params(t),
        client_trusted_subjects(*final(cfg)) == client_trusted_subjects(*old(cfg)),
{
    cfg.transport_config(std::sync::Arc::new(t));
}

// ---------------------------------------------------------------------------
// Verified setup
// ---------------------------------------------------------------------------

/// The QUIC transport parameters every endpoint uses.
#[derive(Debug, Clone, Copy)]
pub struct TransportSettings {
    /// Data streams a peer may have open at once.
    pub max_concurrent_bidi_streams: u32,
    /// Unidirectional streams are not used.
    pub max_concurrent_uni_streams: u32,
    /// Keep-alive period in seconds.
    pub keep_alive_secs: u64,
}

/// The transport parameters of every endpoint: `MAX_CONCURRENT_STREAMS`
/// data streams, no unidirectional stream, a keep-alive every 5 seconds.
pub fn transport_settings() -> (r: TransportSettings)
    ensures
        r.max_concurrent_bidi_streams == MAX_CONCURRENT_STREAMS,
        r.max_concurrent_uni_streams == 0,
        r.keep_alive_secs == 5,
{
    TransportSettings {
        max_concurrent_bidi_streams: MAX_CONCURRENT_STREAMS,
        max_concurrent_uni_streams: 0,
        keep_alive_secs: 5,
    }
}

/// The transport parameters every endpoint uses, as a `TransportConfig`
/// holds them: `MAX_CONCURRENT_STREAMS` bidirectional streams, no
/// unidirectional stream, a keep-alive every 5 seconds.
pub open spec fn standard_transport_params() -> (u64, u64, Option<u128>) {
    (MAX_CONCURRENT_STREAMS as u64, 0u64, Some(5_000_000_000u128))
}

/// A quinn transport configuration carrying `transport_settings()`.
pub fn transport_config() -> (r: TransportConfig)
    ensures
        transport_params(r) == standard_transport_params(),
{
    let s = transport_settings();
    let mut t = default_transport();
    set_max_uni_streams(&mut t, s.max_concurrent_uni_streams);
    set_keep_alive_secs(&mut t, s.keep_alive_secs);
    set_max_bidi_streams(&mut t, s.max_concurrent_bidi_streams);
    t
}

/// `s` starts with `prefix`.
pub open spec fn has_prefix(s: Seq<char>, prefix: Seq<char>) -> bool {
    prefix.len() <= s.len() && s.subrange(0, prefix.len() as int) == prefix
}

fn transport_error(prefix: &str, detail: String) -> (r: EngineError)
    ensures
        r@.0 == ErrorKind::Transport,
        r@.1 == prefix@ + detail@,
        has_prefix(r@.1, prefix@),
{
    let mut m = prefix.to_owned();
    m.append(detail.as_str());
    assert((prefix@ + detail@).subrange(0, prefix@.len() as int) =~= prefix@);
    EngineError::Transport(m)
}

/// The subject alternative names requested for a certificate naming
/// `server_name`: exactly that name.
fn subject_names(server_name: &str) -> (v: Vec<String>)
    ensures
        v@.map_values(|s: String| s@) == seq![server_name@],
{
    let mut names: Vec<String> = Vec::new();
    names.push(server_name.to_owned());
    assert(names@.map_values(|s: String| s@) =~= seq![server_name@]);
    names
}

/// A root store trusting exactly the anchor taken from the peer's DER
/// certificate `cert`, or rustls's refusal of the certificate.
fn pinned_root_store(cert: Vec<u8>) -> (r: Result<RootCertStore, rustls::Error>)
    ensures
        match trust_anchor_subject(cert@) {
            Some(subject) => r matches Ok(store) && root_store_subjects(store) == seq![subject],
            None => r is Err,
        },
{
    let mut roots = empty_root_store();
    let ghost cert_view = cert@;
    match add_root(&mut roots, cert) {
        Ok(()) => {
            assert(Seq::<Seq<u8>>::empty().push(trust_anchor_subject(cert_view)->0) =~= seq![
                trust_anchor_subject(cert_view)->0,
            ]);
            Ok(roots)
        },
        Err(e) => Err(e),
    }
}

/// Generate an ephemeral self-signed certificate naming `server_name` and
/// its PKCS#8 private key, both as DER bytes. The key is fresh and random;
/// a failure of the generator becomes a transport error whose message
/// starts with `cert generation: `.
pub fn generate_self_signed(server_name: &str) -> (r: Result<(Vec<u8>, Vec<u8>), EngineError>)
    ensures
        r matches Ok((cert, key)) ==> issued_self_signed(cert@, key@, seq![server_name@]),
        r matches Err(e) ==> e@.0 == ErrorKind::Transport && has_prefix(e@.1, "cert generation: "@),
{
    match self_signed(subject_names(server_name)) {
        Ok(pair) => Ok(pair),
        Err(e) => Err(transport_error("cert generation: ", rcgen_error_text(&e))),
    }
}

/// The QUIC configuration of the receiving side: TLS presenting the DER
/// certificate `cert` with the PKCS#8 key `key`, no client authentication,
/// and `transport_settings()`. It is built exactly when rustls accepts that
/// identity; a refusal becomes a transport error whose message starts with
/// `rustls server config: `.
pub fn server_config(cert: Vec<u8>, key: Vec<u8>) -> (r: Result<ServerConfig, EngineError>)
    ensures
        r is Ok <==> server_identity_accepted(cert@, key@),
        r matches Ok(c) ==> server_transport_params(c) == standard_transport_params(),
        r matches Err(e) ==> e@.0 == ErrorKind::Transport && has_prefix(
            e@.1,
            "rustls server config: "@,
        ),
{
    let tls = match rustls_server_config(cert, key) {
        Ok(c) => c,
        Err(e) => {
            return Err(transport_error("rustls server config: ", rustls_error_text(&e)));
        },
    };
    let crypto = match quic_server_crypto(tls) {
        Ok(c) => c,
        Err(e) => {
            return Err(transport_error("quic server config: ", cipher_suite_error_text(&e)));
        },
    };
    let mut cfg = quinn_server_config(crypto);
    set_server_transport(&mut cfg, transport_config());
    Ok(cfg)
}

/// The QUIC configuration of a sending side that trusts exactly the anchor
/// taken from the peer's self-signed DER certificate `cert` (certificate
/// pinning), with `transport_settings()`. It is built exactly when the
/// certificate yields a trust anchor; otherwise the refusal becomes a
/// transport error whose message starts with `pin cert: `.
pub fn client_config(cert: Vec<u8>) -> (r: Result<ClientConfig, EngineError>)
    ensures
        r is Ok <==> trust_anchor_subject(cert@) is Some,
        r matches Ok(c) ==> client_trusted_subjects(c) == seq![trust_anchor_subject(cert@)->0]
            && client_transport_params(c) == standard_transport_params(),
        r matches Err(e) ==> e@.0 == ErrorKind::Transport && has_prefix(e@.1, "pin cert: "@),
{
    let roots = match pinned_root_store(cert) {
        Ok(store) => store,
        Err(e) => {
            return Err(transport_error("pin cert: ", rustls_error_text(&e)));
        },
    };
    let tls = match rustls_client_config(roots) {
        Ok(c) => c,
        Err(e) => {
            return Err(transport_error("rustls client config: ", rustls_error_text(&e)));
        },
    };
    let crypto = match quic_client_crypto(tls) {
        Ok(c) => c,
        Err(e) => {
            return Err(transport_error("quic client config: ", cipher_suite_error_text(&e)));
        },
    };
    Ok(quic_client_config(crypto))
}

/// The QUIC client configuration over the QUIC TLS session configuration
/// `crypto`, with `transport_settings()`.
pub fn quic_client_config(crypto: QuicClientConfig) -> (r: ClientConfig)
    ensures
        client_trusted_subjects(r) == quic_client_trusted_subjects(crypto),
        client_transport_params(r) == standard_transport_params(),
{
    let mut cfg = quinn_client_config(crypto);
    set_client_transport(&mut cfg, transport_config());
    cfg
}

/// The socket address text an endpoint binds to: `addr:port`.
pub fn bind_address(addr: &str, port: u16) -> (r: String)
    ensures
        r@ == addr@ + ":"@ + decimal(port as nat),
{
    let mut s = addr.to_owned();
    s.append(":");
    push_decimal(&mut s, port as u64);
    s
}

} // verus!
