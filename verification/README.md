# morselink_core

Peer-to-peer file transfer over QUIC/TLS 1.3 on a local network, with the
decision-making core proved correct with Verus.

## Layout

- `src/` — the verified library.
  - `protocol.rs`: control messages, chunk planning, `[u32 BE length][payload]`
    framing, with the chunk-tiling and framing round-trip laws.
  - `session.rs`: the sender and receiver conversations (hello, request,
    accept, data routing, done) as state machines, with laws on version
    refusal (both sides), ordering and the end-to-end handshake.
  - `resume.rs`: per-file acknowledgement tracking and resume points.
  - `transfer.rs`: file-name sanitising, transfer/stream ids, per-chunk
    stream headers.
  - `discovery.rs`: announcements, the peer table (deduplicated by peer id,
    forgetting stale peers, listing by name) and mDNS registration data.
  - `transport.rs`: certificate generation and QUIC configurations over
    rcgen, rustls and quinn.
  - `engine.rs`, `cli.rs`, `desktop.rs`: per-shell MIME tables and file
    metadata; `paths.rs`, `text.rs`, `identity.rs`, `error.rs`, `config.rs`:
    shared helpers, node ids, errors and constants.
- `tests/` — tests of the library.
- `app/` — the program around it: the `morselink` CLI, async QUIC stream I/O,
  the discovery loop, JSON encoding and the desktop commands. `app/ffi.rs`
  holds the UniFFI surface for native shells; it is compiled only when the
  `ffi` cfg is set, which this package's manifest does not declare.

Verify with Verus; build and test with Cargo.
