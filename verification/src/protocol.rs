//! Wire protocol: message types, framing and chunk planning.
//!
//! After a QUIC connection is established the initiating peer opens a single
//! control stream and performs a hello/ack handshake, then a request/accept
//! exchange. Each byte range of a file is then carried on its own data
//! stream. Every stream is framed as `[u32 BE length][payload bytes]`.

use vstd::prelude::*;

use crate::config::PROTOCOL_VERSION;
use crate::error::{EngineError, ErrorKind};

verus! {

/// Upper bound on a single framed control message (1 MiB).
pub const MAX_CTRL_FRAME: usize = 1048576;

/// Upper bound on a per-stream metadata header (64 KiB).
pub const MAX_HEADER_FRAME: usize = 65536;

/// Metadata of one file in a transfer batch.
#[derive(Debug, Clone)]
pub struct FileMeta {
    pub name: String,
    pub size: u64,
    pub mime: String,
    /// 1-based index within the transfer batch.
    pub file_index: u32,
}

/// What a `FileMeta` holds, as plain values.
pub struct FileMetaView {
    pub name: Seq<char>,
    pub size: u64,
    pub mime: Seq<char>,
    pub file_index: u32,
}

impl View for FileMeta {
    type V = FileMetaView;

    open spec fn view(&self) -> FileMetaView {
        FileMetaView { name: self.name@, size: self.size, mime: self.mime@, file_index: self.file_index }
    }
}

/// The views of a sequence of file metadata.
pub open spec fn metas_view(files: Seq<FileMeta>) -> Seq<FileMetaView> {
    files.map_values(|f: FileMeta| f@)
}

impl FileMeta {
    /// A copy of this metadata.
    pub fn duplicate(&self) -> (r: Self)
        ensures
            r@ == self@,
    {
        FileMeta {
            name: self.name.clone(),
            size: self.size,
            mime: self.mime.clone(),
            file_index: self.file_index,
        }
    }
}

/// A copy of a list of file metadata.
pub fn duplicate_metas(files: &Vec<FileMeta>) -> (r: Vec<FileMeta>)
    ensures
        metas_view(r@) == metas_view(files@),
{
    let mut r: Vec<FileMeta> = Vec::new();
    let mut i: usize = 0;
    while i < files.len()
        invariant
            i <= files.len(),
            metas_view(r@) == metas_view(files@.take(i as int)),
        decreases files.len() - i,
    {
        let m = files[i].duplicate();
        r.push(m);
        i = i + 1;
        assert(metas_view(files@.take(i as int)) =~= metas_view(files@.take((i - 1) as int)).push(
            files@[i - 1]@,
        ));
        assert(metas_view(r@) =~= metas_view(files@.take(i as int)));
    }
    assert(files@.take(files.len() as int) == files@);
    r
}

/// Messages of the control stream.
#[derive(Debug, Clone)]
pub enum ControlMessage {
    Hello { protocol_version: String, device_name: String, peer_id: String },
    HelloAck { protocol_version: String, device_name: String, peer_id: String },
    Request { transfer_id: u64, files: Vec<FileMeta> },
    Accept { transfer_id: u64 },
    Reject { transfer_id: u64, reason: String },
    Done { transfer_id: u64, name: String },
}

/// What a `ControlMessage` holds, as plain values.
pub enum ControlView {
    Hello { protocol_version: Seq<char>, device_name: Seq<char>, peer_id: Seq<char> },
    HelloAck { protocol_version: Seq<char>, device_name: Seq<char>, peer_id: Seq<char> },
    Request { transfer_id: u64, files: Seq<FileMetaView> },
    Accept { transfer_id: u64 },
    Reject { transfer_id: u64, reason: Seq<char> },
    Done { transfer_id: u64, name: Seq<char> },
}

impl View for ControlMessage {
    type V = ControlView;

    open spec fn view(&self) -> ControlView {
        match self {
            ControlMessage::Hello { protocol_version, device_name, peer_id } => ControlView::Hello {
                protocol_version: protocol_version@,
                device_name: device_name@,
                peer_id: peer_id@,
            },
            ControlMessage::HelloAck { protocol_version, device_name, peer_id } =>
                ControlView::HelloAck {
                protocol_version: protocol_version@,
                device_name: device_name@,
                peer_id: peer_id@,
            },
            ControlMessage::Request { transfer_id, files } => ControlView::Request {
                transfer_id: *transfer_id,
                files: metas_view(files@),
            },
            ControlMessage::Accept { transfer_id } => ControlView::Accept { transfer_id: *transfer_id },
            ControlMessage::Reject { transfer_id, reason } => ControlView::Reject {
                transfer_id: *transfer_id,
                reason: reason@,
            },
            ControlMessage::Done { transfer_id, name } => ControlView::Done {
                transfer_id: *transfer_id,
                name: name@,
            },
        }
    }
}

impl ControlMessage {
    /// The opening message of the initiating peer.
    pub fn hello(device_name: &str, peer_id: &str) -> (r: Self)
        ensures
            r@ == (ControlView::Hello {
                protocol_version: PROTOCOL_VERSION@,
                device_name: device_name@,
                peer_id: peer_id@,
            }),
    {
        ControlMessage::Hello {
            protocol_version: PROTOCOL_VERSION.to_owned(),
            device_name: device_name.to_owned(),
            peer_id: peer_id.to_owned(),
        }
    }

    /// The answering peer's reply to a `Hello`.
    pub fn hello_ack(device_name: &str, peer_id: &str) -> (r: Self)
        ensures
            r@ == (ControlView::HelloAck {
                protocol_version: PROTOCOL_VERSION@,
                device_name: device_name@,
                peer_id: peer_id@,
            }),
    {
        ControlMessage::HelloAck {
            protocol_version: PROTOCOL_VERSION.to_owned(),
            device_name: device_name.to_owned(),
            peer_id: peer_id.to_owned(),
        }
    }
}

/// Header written at the start of every data stream (one per chunk).
#[derive(Debug, Clone)]
pub struct StreamHeader {
    pub transfer_id: u64,
    pub file_index: u32,
    pub chunk_index: u64,
    /// Byte offset of this chunk within the file (bytes `[offset, offset+len)`).
    pub offset: u64,
    /// Length of this chunk's payload.
    pub len: u32,
    pub file_size: u64,
    pub file_name: String,
    pub mime: String,
    pub total_chunks: u64,
}

// ---------------------------------------------------------------------------
// Chunk planning
// ---------------------------------------------------------------------------

/// The chunk size that `chunks_of` works with: `chunk_size`, or 1 for 0.
pub open spec fn positive_chunk(chunk_size: u64) -> nat {
    if chunk_size == 0 {
        1
    } else {
        chunk_size as nat
    }
}

/// `ceil(file_size / chunk)` for a positive `chunk`.
pub open spec fn ceil_div(file_size: nat, chunk: nat) -> nat
    recommends
        chunk > 0,
{
    file_size / chunk + if file_size % chunk == 0 {
        0nat
    } else {
        1nat
    }
}

/// The number of chunks that `chunks_of(file_size, chunk_size)` yields.
pub open spec fn chunk_total(file_size: u64, chunk_size: u64) -> nat {
    ceil_div(file_size as nat, positive_chunk(chunk_size))
}

/// The `i`-th `(offset, len)` pair of `chunks_of(file_size, chunk_size)`.
pub open spec fn chunk_spec(file_size: u64, chunk_size: u64, i: int) -> (u64, u64) {
    let cs = positive_chunk(chunk_size) as int;
    let offset = i * cs;
    let rest = file_size - offset;
    (offset as u64, (if rest < cs {
        rest
    } else {
        cs
    }) as u64)
}

/// All chunks of a file, in order.
pub open spec fn chunks_spec(file_size: u64, chunk_size: u64) -> Seq<(u64, u64)> {
    Seq::new(chunk_total(file_size, chunk_size), |i: int| chunk_spec(file_size, chunk_size, i))
}

proof fn lemma_chunk_offset_in_file(file_size: nat, cs: nat, i: nat)
    requires
        cs > 0,
        i < ceil_div(file_size, cs),
    ensures
        i * cs < file_size,
        (i + 1) * cs <= file_size ==> i + 1 < ceil_div(file_size, cs) || (i + 1) * cs == file_size,
        i + 1 == ceil_div(file_size, cs) ==> file_size <= (i + 1) * cs,
{
    let q = file_size / cs;
    let r = file_size % cs;
    assert(file_size == q * cs + r && 0 <= r < cs) by (nonlinear_arith)
        requires
            cs > 0,
            q == file_size / cs,
            r == file_size % cs,
    ;
    if r == 0 {
        assert(i < q);
        assert(i * cs < file_size) by (nonlinear_arith)
            requires
                i < q,
                file_size == q * cs,
                cs > 0,
        ;
        assert((i + 1) * cs <= file_size ==> i + 1 < q || (i + 1) * cs == file_size) by (
        nonlinear_arith)
            requires
                i < q,
                file_size == q * cs,
                cs > 0,
        ;
    } else {
        assert(i <= q);
        assert(i * cs < file_size) by (nonlinear_arith)
            requires
                i <= q,
                file_size == q * cs + r,
                r > 0,
                cs > 0,
        ;
        assert((i + 1) * cs <= file_size ==> i + 1 < q + 1) by (nonlinear_arith)
            requires
                i <= q,
                file_size == q * cs + r,
                r > 0,
                r < cs,
                cs > 0,
        ;
    }
    assert(i + 1 == ceil_div(file_size, cs) ==> file_size <= (i + 1) * cs) by (nonlinear_arith)
        requires
            file_size == q * cs + r,
            0 <= r < cs,
            ceil_div(file_size, cs) == q + if r == 0 {
                0nat
            } else {
                1nat
            },
    ;
}

/// Number of chunks of a file of `file_size` bytes cut into pieces of
/// `chunk_size` bytes (a chunk size of 0 counts as 1).
pub fn chunk_count(file_size: u64, chunk_size: u64) -> (r: u64)
    ensures
        r == chunk_total(file_size, chunk_size),
{
    let cs: u64 = if chunk_size == 0 {
        1
    } else {
        chunk_size
    };
    let extra: u64 = if file_size % cs == 0 {
        0
    } else {
        1
    };
    proof {
        assert(file_size / cs + extra <= u64::MAX) by (nonlinear_arith)
            requires
                cs >= 1,
                extra <= 1,
                extra == 1 ==> file_size % cs != 0,
        ;
    }
    file_size / cs + extra
}

/// The `index`-th chunk `(offset, len)` of a file.
pub fn chunk_at(file_size: u64, chunk_size: u64, index: u64) -> (r: (u64, u64))
    requires
        index < chunk_total(file_size, chunk_size),
    ensures
        r == chunk_spec(file_size, chunk_size, index as int),
{
    let cs: u64 = if chunk_size == 0 {
        1
    } else {
        chunk_size
    };
    proof {
        lemma_chunk_offset_in_file(file_size as nat, cs as nat, index as nat);
    }
    let offset = index * cs;
    let rest = file_size - offset;
    let len = if rest < cs {
        rest
    } else {
        cs
    };
    (offset, len)
}

/// Chunk boundaries `(offset, len)` for a file, in order, the same on every
/// platform.
pub fn chunks_of(file_size: u64, chunk_size: u64) -> (r: Vec<(u64, u64)>)
    requires
        chunk_total(file_size, chunk_size) <= usize::MAX,
    ensures
        r@ == chunks_spec(file_size, chunk_size),
{
    let n = chunk_count(file_size, chunk_size);
    let mut r: Vec<(u64, u64)> = Vec::new();
    let mut i: u64 = 0;
    while i < n
        invariant
            i <= n,
            n == chunk_total(file_size, chunk_size),
            r@ == chunks_spec(file_size, chunk_size).take(i as int),
        decreases n - i,
    {
        let c = chunk_at(file_size, chunk_size, i);
        r.push(c);
        i = i + 1;
        assert(r@ =~= chunks_spec(file_size, chunk_size).take(i as int));
    }
    assert(chunks_spec(file_size, chunk_size).take(n as int) =~= chunks_spec(file_size, chunk_size));
    r
}

/// Chunks tile the file: the `i`-th chunk starts at `i * chunk`, holds
/// between 1 and `chunk` bytes, ends where the next one starts, and the last
/// one ends at the end of the file; an empty file has no chunk.
pub proof fn lemma_chunks_tile_file(file_size: u64, chunk_size: u64)
    ensures
        chunks_spec(file_size, chunk_size).len() == 0 <==> file_size == 0,
        forall|i: int|
            0 <= i < chunks_spec(file_size, chunk_size).len() ==> {
                let c = #[trigger] chunks_spec(file_size, chunk_size)[i];
                &&& c.0 == i * positive_chunk(chunk_size)
                &&& 0 < c.1 <= positive_chunk(chunk_size)
                &&& c.0 + c.1 <= file_size
                &&& i + 1 < chunks_spec(file_size, chunk_size).len() ==> c.0 + c.1
                    == chunks_spec(file_size, chunk_size)[i + 1].0
                &&& i + 1 == chunks_spec(file_size, chunk_size).len() ==> c.0 + c.1 == file_size
            },
{
    let cs = positive_chunk(chunk_size);
    let n = chunk_total(file_size, chunk_size);
    if file_size == 0 {
        assert(0nat / cs == 0 && 0nat % cs == 0) by (nonlinear_arith)
            requires
                cs > 0,
        ;
    } else {
        assert(n > 0) by (nonlinear_arith)
            requires
                cs > 0,
                file_size > 0,
                n == ceil_div(file_size as nat, cs),
        ;
    }
    assert forall|i: int| 0 <= i < chunks_spec(file_size, chunk_size).len() implies {
        let c = #[trigger] chunks_spec(file_size, chunk_size)[i];
        &&& c.0 == i * positive_chunk(chunk_size)
        &&& 0 < c.1 <= positive_chunk(chunk_size)
        &&& c.0 + c.1 <= file_size
        &&& i + 1 < chunks_spec(file_size, chunk_size).len() ==> c.0 + c.1 == chunks_spec(
            file_size,
            chunk_size,
        )[i + 1].0
        &&& i + 1 == chunks_spec(file_size, chunk_size).len() ==> c.0 + c.1 == file_size
    } by {
        lemma_chunk_offset_in_file(file_size as nat, cs, i as nat);
        assert((i + 1) * cs == i * cs + cs) by (nonlinear_arith);
        assert(0 <= i * cs) by (nonlinear_arith)
            requires
                0 <= i,
                cs > 0,
        ;
        let off = i * cs;
        let rest = file_size - off;
        assert(chunk_spec(file_size, chunk_size, i).0 == off);
        if i + 1 < n {
            lemma_chunk_offset_in_file(file_size as nat, cs, (i + 1) as nat);
            assert(rest >= cs);
            assert(chunk_spec(file_size, chunk_size, i + 1).0 == (i + 1) * cs);
        }
        if i + 1 == n {
            assert(rest <= cs);
        }
    }
}


// ---------------------------------------------------------------------------
// Framing: [u32 BE length][payload]
// ---------------------------------------------------------------------------

/// The four big-endian bytes of `x`.
pub open spec fn be32_bytes(x: u32) -> Seq<u8> {
    seq![(x >> 24u32) as u8, (x >> 16u32) as u8, (x >> 8u32) as u8, x as u8]
}

/// The number that four bytes denote, read big-endian.
pub open spec fn be32_value(b0: u8, b1: u8, b2: u8, b3: u8) -> u32 {
    ((b0 as u32) << 24u32) | ((b1 as u32) << 16u32) | ((b2 as u32) << 8u32) | (b3 as u32)
}

/// Reading back the big-endian bytes of `x` gives `x`.
pub proof fn lemma_be32_round_trip(x: u32)
    ensures
        be32_value(be32_bytes(x)[0], be32_bytes(x)[1], be32_bytes(x)[2], be32_bytes(x)[3]) == x,
{
    assert((((x >> 24u32) as u8 as u32) << 24u32) | (((x >> 16u32) as u8 as u32) << 16u32) | (((x
        >> 8u32) as u8 as u32) << 8u32) | ((x as u8) as u32) == x) by (bit_vector);
}

/// A frame carrying `payload` (whose length fits in 32 bits).
pub open spec fn framed(payload: Seq<u8>) -> Seq<u8> {
    be32_bytes(payload.len() as u32) + payload
}

/// The largest payload length a reader accepts: `max`, or `MAX_CTRL_FRAME`.
pub open spec fn frame_cap(max: Option<usize>) -> nat {
    match max {
        Some(m) => m as nat,
        None => MAX_CTRL_FRAME as nat,
    }
}

/// `n` bytes of `s` from position `start` on, with zeros where `s` ends
/// early (what a reader's zero-initialised buffer holds after a short read).
pub open spec fn padded(s: Seq<u8>, start: int, n: nat) -> Seq<u8> {
    Seq::new(n, |i: int| if 0 <= start + i < s.len() { s[start + i] } else { 0u8 })
}

/// What a frame reader makes of a stream that carries `bytes`.
pub enum FrameRead {
    /// The stream ended before its first byte: no message.
    End,
    /// The length prefix is zero or above the cap.
    BadLength,
    /// The frame's payload.
    Payload(Seq<u8>),
}

/// The length prefix at the start of `bytes` (zero-padded when shorter).
pub open spec fn prefix_len(bytes: Seq<u8>) -> u32 {
    let h = padded(bytes, 0, 4);
    be32_value(h[0], h[1], h[2], h[3])
}

/// The outcome of reading one frame from a stream carrying `bytes`, with
/// payload cap `frame_cap(max)`.
pub open spec fn read_frame_spec(bytes: Seq<u8>, max: Option<usize>) -> FrameRead {
    if bytes.len() == 0 {
        FrameRead::End
    } else {
        let len = prefix_len(bytes);
        if len == 0 || len > frame_cap(max) {
            FrameRead::BadLength
        } else {
            FrameRead::Payload(padded(bytes, 4, len as nat))
        }
    }
}

/// Encode `payload` as one frame. Fails when the payload exceeds
/// `MAX_CTRL_FRAME` bytes.
pub fn encode_frame(payload: &[u8]) -> (r: Result<Vec<u8>, EngineError>)
    ensures
        payload@.len() > MAX_CTRL_FRAME <==> r is Err,
        match r {
            Ok(v) => v@ == framed(payload@),
            Err(e) => e@ == (ErrorKind::Transfer, "frame exceeds max size"@),
        },
{
    if payload.len() > MAX_CTRL_FRAME {
        return Err(EngineError::transfer("frame exceeds max size"));
    }
    let n: u32 = payload.len() as u32;
    let mut v: Vec<u8> = Vec::new();
    v.push((n >> 24u32) as u8);
    v.push((n >> 16u32) as u8);
    v.push((n >> 8u32) as u8);
    v.push(n as u8);
    assert(v@ =~= be32_bytes(n));
    let mut i: usize = 0;
    while i < payload.len()
        invariant
            i <= payload.len(),
            v@ == be32_bytes(n) + payload@.take(i as int),
        decreases payload.len() - i,
    {
        v.push(payload[i]);
        i = i + 1;
        assert(v@ =~= be32_bytes(n) + payload@.take(i as int));
    }
    assert(payload@.take(payload.len() as int) =~= payload@);
    Ok(v)
}

/// Decide what a frame reader does after reading the length prefix:
/// `header_read` bytes of the four-byte prefix arrived (the rest of
/// `len_buf` stays zero). No byte means the stream finished with no message;
/// a zero length or one above the cap is refused.
pub fn frame_length(header_read: usize, len_buf: [u8; 4], max: Option<usize>) -> (r: Result<
    Option<usize>,
    EngineError,
>)
    ensures
        header_read == 0 ==> r matches Ok(None),
        header_read != 0 ==> {
            let len = be32_value(len_buf@[0], len_buf@[1], len_buf@[2], len_buf@[3]);
            if len == 0 || len > frame_cap(max) {
                r matches Err(e) && e@ == (ErrorKind::Transfer, "bad frame length"@)
            } else {
                r matches Ok(Some(n)) && n == len
            }
        },
{
    if header_read == 0 {
        return Ok(None);
    }
    let len: u32 = ((len_buf[0] as u32) << 24u32) | ((len_buf[1] as u32) << 16u32) | ((
    len_buf[2] as u32) << 8u32) | (len_buf[3] as u32);
    let cap: usize = match max {
        Some(m) => m,
        None => MAX_CTRL_FRAME,
    };
    if len == 0 || len as usize > cap {
        return Err(EngineError::transfer("bad frame length"));
    }
    Ok(Some(len as usize))
}

/// Read one frame from a buffer holding everything a stream carries, the way
/// the stream reader does: `Ok(None)` for an empty stream, an error for a bad
/// length, else the payload (zero-filled where the stream ends early).
pub fn decode_frame(bytes: &[u8], max: Option<usize>) -> (r: Result<Option<Vec<u8>>, EngineError>)
    ensures
        match read_frame_spec(bytes@, max) {
            FrameRead::End => r matches Ok(None),
            FrameRead::BadLength => r matches Err(e) && e@ == (
                ErrorKind::Transfer,
                "bad frame length"@,
            ),
            FrameRead::Payload(p) => r matches Ok(Some(v)) && v@ == p,
        },
{
    let n = bytes.len();
    let mut len_buf: [u8; 4] = [0u8; 4];
    let mut k: usize = 0;
    while k < 4
        invariant
            k <= 4,
            n == bytes@.len(),
            forall|j: int| 0 <= j < k ==> len_buf@[j] == padded(bytes@, 0, 4)[j],
        decreases 4 - k,
    {
        if k < n {
            len_buf[k] = bytes[k];
        } else {
            len_buf[k] = 0;
        }
        k = k + 1;
    }
    let header_read: usize = if n < 4 {
        n
    } else {
        4
    };
    assert(len_buf@ =~= padded(bytes@, 0, 4));
    let len = match frame_length(header_read, len_buf, max) {
        Ok(None) => {
            return Ok(None);
        },
        Ok(Some(len)) => len,
        Err(e) => {
            return Err(e);
        },
    };
    let mut payload: Vec<u8> = Vec::new();
    let mut i: usize = 0;
    while i < len
        invariant
            i <= len,
            n == bytes@.len(),
            payload@ == padded(bytes@, 4, len as nat).take(i as int),
        decreases len - i,
    {
        let b: u8 = if i < n && n - i > 4 {
            bytes[i + 4]
        } else {
            0
        };
        payload.push(b);
        i = i + 1;
        assert(payload@ =~= padded(bytes@, 4, len as nat).take(i as int));
    }
    assert(padded(bytes@, 4, len as nat).take(len as int) =~= padded(bytes@, 4, len as nat));
    Ok(Some(payload))
}

/// Framing round trip: a reader given a stream that starts with the frame of
/// a non-empty `payload` (within the reader's cap) gets back exactly
/// `payload`, whatever follows it on the stream.
pub proof fn lemma_frame_round_trip(payload: Seq<u8>, rest: Seq<u8>, max: Option<usize>)
    requires
        0 < payload.len() <= frame_cap(max),
        payload.len() <= u32::MAX,
    ensures
        read_frame_spec(framed(payload) + rest, max) == FrameRead::Payload(payload),
{
    let n = payload.len() as u32;
    let bytes = framed(payload) + rest;
    lemma_be32_round_trip(n);
    assert(padded(bytes, 0, 4) =~= be32_bytes(n));
    assert(prefix_len(bytes) == n);
    assert(padded(bytes, 4, n as nat) =~= payload);
}

/// A stream that carries nothing yields no message.
pub proof fn lemma_empty_stream_has_no_frame(max: Option<usize>)
    ensures
        read_frame_spec(Seq::<u8>::empty(), max) == FrameRead::End,
{
}

/// How much of a buffer is left to write after a stream accepted `written`
/// of its `remaining` bytes; a write that accepts nothing means the stream
/// stalled.
pub fn remaining_after_write(remaining: usize, written: usize) -> (r: Result<usize, EngineError>)
    requires
        written <= remaining,
    ensures
        written == 0 ==> (r matches Err(e) && e@ == (
            ErrorKind::Transfer,
            "stream stalled while writing"@,
        )),
        written > 0 ==> (r matches Ok(left) && left == remaining - written),
{
    if written == 0 {
        Err(EngineError::transfer("stream stalled while writing"))
    } else {
        Ok(remaining - written)
    }
}

} // verus!
