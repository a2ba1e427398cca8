//! Resuming a transfer from the last acknowledged byte.
//!
//! Every chunk is offset-addressed and acknowledged on its own data stream.
//! The receiver keeps, per file, which chunks are acknowledged and the
//! highest contiguous acknowledged offset; `resume_chunk` gives the first
//! chunk that a sender resuming from such an offset sends, skipping the
//! chunks that lie entirely below it. The control messages carry no offset,
//! so handing it back to a restarted sender is left to the embedding
//! application.

use vstd::prelude::*;

use crate::protocol::{chunk_count, chunk_spec, chunk_total, positive_chunk};

verus! {

/// The acknowledgement state of one file being received.
pub struct ResumeTracker {
    file_size: u64,
    chunk_size: u64,
    received: Vec<bool>,
    next: usize,
}

/// What a `ResumeTracker` holds, as plain values.
pub struct ResumeView {
    pub file_size: u64,
    pub chunk_size: u64,
    /// Whether each chunk has been acknowledged.
    pub received: Seq<bool>,
    /// The first chunk not yet acknowledged (all before it are).
    pub next: nat,
}

impl View for ResumeTracker {
    type V = ResumeView;

    closed spec fn view(&self) -> ResumeView {
        ResumeView {
            file_size: self.file_size,
            chunk_size: self.chunk_size,
            received: self.received@,
            next: self.next as nat,
        }
    }
}

/// The invariant of a tracker: one flag per chunk, and `next` is the first
/// unacknowledged chunk.
pub open spec fn resume_wf(v: ResumeView) -> bool {
    &&& v.chunk_size > 0
    &&& v.received.len() == chunk_total(v.file_size, v.chunk_size)
    &&& v.next <= v.received.len()
    &&& forall|k: int| 0 <= k < v.next ==> #[trigger] v.received[k]
    &&& v.next < v.received.len() ==> !v.received[v.next as int]
}

/// The highest offset below which every byte is acknowledged.
pub open spec fn acknowledged_spec(v: ResumeView) -> nat {
    if v.next >= v.received.len() {
        v.file_size as nat
    } else {
        chunk_spec(v.file_size, v.chunk_size, v.next as int).0 as nat
    }
}

/// The first chunk that a sender resuming after `acked` acknowledged bytes
/// sends: the number of chunks lying entirely below `acked`.
pub open spec fn resume_chunk_spec(file_size: u64, chunk_size: u64, acked: u64) -> nat {
    let n = chunk_total(file_size, chunk_size);
    if acked >= file_size {
        n
    } else {
        acked as nat / positive_chunk(chunk_size)
    }
}

impl ResumeTracker {
    #[verifier::type_invariant]
    closed spec fn inv(self) -> bool {
        resume_wf(self@)
    }

    /// A tracker for a file of `file_size` bytes cut into `chunk_size`-byte
    /// chunks, with nothing acknowledged.
    pub fn new(file_size: u64, chunk_size: u64) -> (r: Self)
        requires
            chunk_size > 0,
            chunk_total(file_size, chunk_size) <= usize::MAX,
        ensures
            r@.file_size == file_size,
            r@.chunk_size == chunk_size,
            r@.next == 0,
            resume_wf(r@),
            r@.received.len() == chunk_total(file_size, chunk_size),
            forall|k: int| 0 <= k < r@.received.len() ==> !#[trigger] r@.received[k],
    {
        let n = chunk_count(file_size, chunk_size) as usize;
        let mut received: Vec<bool> = Vec::new();
        let mut i: usize = 0;
        while i < n
            invariant
                i <= n,
                received@.len() == i,
                forall|k: int| 0 <= k < i ==> !#[trigger] received@[k],
            decreases n - i,
        {
            received.push(false);
            i = i + 1;
        }
        ResumeTracker { file_size, chunk_size, received, next: 0 }
    }

    /// The highest offset below which every byte is acknowledged.
    pub fn acknowledged(&self) -> (r: u64)
        ensures
            r == acknowledged_spec(self@),
            resume_wf(self@),
    {
        proof {
            use_type_invariant(self);
        }
        if self.next >= self.received.len() {
            self.file_size
        } else {
            crate::protocol::chunk_at(self.file_size, self.chunk_size, self.next as u64).0
        }
    }

    /// Record that chunk `chunk_index` is acknowledged. An index beyond the
    /// file's chunks is ignored (and `false` returned).
    pub fn acknowledge(&mut self, chunk_index: u64) -> (r: bool)
        ensures
            r == (chunk_index < old(self)@.received.len()),
            final(self)@.file_size == old(self)@.file_size,
            final(self)@.chunk_size == old(self)@.chunk_size,
            final(self)@.received == if r {
                old(self)@.received.update(chunk_index as int, true)
            } else {
                old(self)@.received
            },
            acknowledged_spec(old(self)@) <= acknowledged_spec(final(self)@),
            resume_wf(final(self)@),
    {
        proof {
            use_type_invariant(&*self);
        }
        let ghost old_view = self@;
        if chunk_index >= self.received.len() as u64 {
            return false;
        }
        let idx = chunk_index as usize;
        let mut taken = ResumeTracker { file_size: 0, chunk_size: 1, received: Vec::new(), next: 0 };
        std::mem::swap(self, &mut taken);
        let ResumeTracker { file_size, chunk_size, mut received, next: start } = taken;
        received.set(idx, true);
        let mut next = start;
        while next < received.len() && received[next]
            invariant
                old_view.next <= next <= received@.len(),
                idx < old_view.received.len(),
                received@ == old_view.received.update(idx as int, true),
                forall|k: int| 0 <= k < next ==> #[trigger] received@[k],
            decreases received@.len() - next,
        {
            next = next + 1;
        }
        proof {
            let cs = positive_chunk(old_view.chunk_size);
            let n = received@.len();
            assert(cs == old_view.chunk_size);
            if old_view.next < n {
                crate::protocol::lemma_chunks_tile_file(old_view.file_size, old_view.chunk_size);
                let c_old = crate::protocol::chunks_spec(old_view.file_size, old_view.chunk_size)[old_view.next as int];
                if next < n {
                    let c_new = crate::protocol::chunks_spec(old_view.file_size, old_view.chunk_size)[next as int];
                    assert(c_old.0 == old_view.next * cs);
                    assert(c_new.0 == next * cs);
                    assert(old_view.next * cs <= next * cs) by (nonlinear_arith)
                        requires
                            old_view.next <= next,
                            cs > 0,
                    ;
                } else {
                    assert(c_old.0 + c_old.1 <= old_view.file_size);
                }
            }
        }
        *self = ResumeTracker { file_size, chunk_size, received, next };
        true
    }
}

/// Everything below the acknowledged offset was received: every chunk that
/// ends at or below it is acknowledged, and the offset is the whole file
/// exactly when every chunk is.
pub proof fn lemma_acknowledged_prefix_received(v: ResumeView)
    requires
        resume_wf(v),
    ensures
        forall|k: int|
            0 <= k < v.received.len() && chunk_spec(v.file_size, v.chunk_size, k).0
                + chunk_spec(v.file_size, v.chunk_size, k).1 <= acknowledged_spec(v)
                ==> #[trigger] v.received[k],
        acknowledged_spec(v) == v.file_size <==> forall|k: int|
            0 <= k < v.received.len() ==> #[trigger] v.received[k],
        acknowledged_spec(v) <= v.file_size,
{
    crate::protocol::lemma_chunks_tile_file(v.file_size, v.chunk_size);
    let chunks = crate::protocol::chunks_spec(v.file_size, v.chunk_size);
    let cs = positive_chunk(v.chunk_size);
    assert forall|k: int|
        0 <= k < v.received.len() && chunk_spec(v.file_size, v.chunk_size, k).0 + chunk_spec(
            v.file_size,
            v.chunk_size,
            k,
        ).1 <= acknowledged_spec(v) implies #[trigger] v.received[k] by {
        assert(chunks[k] == chunk_spec(v.file_size, v.chunk_size, k));
        if k >= v.next && v.next < v.received.len() {
            let c = chunks[v.next as int];
            assert(chunks[k].0 == k * cs);
            assert(c.0 == v.next * cs);
            assert(v.next * cs <= k * cs) by (nonlinear_arith)
                requires
                    v.next <= k,
                    cs > 0,
            ;
            assert(chunks[k].1 > 0);
        }
    }
    if v.next < v.received.len() {
        let c = chunks[v.next as int];
        assert(c.0 + c.1 <= v.file_size);
        assert(c.1 > 0);
    }
}

/// Resuming from a tracker's acknowledged offset starts exactly at the first
/// chunk the receiver has not acknowledged (or past the last chunk when
/// every chunk is).
pub proof fn lemma_resume_from_acknowledged(v: ResumeView)
    requires
        resume_wf(v),
    ensures
        acknowledged_spec(v) <= v.file_size,
        resume_chunk_spec(v.file_size, v.chunk_size, acknowledged_spec(v) as u64) == v.next,
{
    lemma_acknowledged_prefix_received(v);
    let n = v.received.len();
    if v.next < n {
        crate::protocol::lemma_chunks_tile_file(v.file_size, v.chunk_size);
        let cs = positive_chunk(v.chunk_size);
        let c = crate::protocol::chunks_spec(v.file_size, v.chunk_size)[v.next as int];
        assert(c == chunk_spec(v.file_size, v.chunk_size, v.next as int));
        assert(c.0 == v.next * cs);
        assert(c.0 < v.file_size);
        assert((v.next * cs) / cs == v.next) by (nonlinear_arith)
            requires
                cs > 0,
        ;
    }
}

/// The first chunk to send when resuming after `acked` acknowledged bytes.
pub fn resume_chunk(file_size: u64, chunk_size: u64, acked: u64) -> (r: u64)
    ensures
        r == resume_chunk_spec(file_size, chunk_size, acked),
{
    let n = chunk_count(file_size, chunk_size);
    if acked >= file_size {
        n
    } else {
        let cs: u64 = if chunk_size == 0 {
            1
        } else {
            chunk_size
        };
        acked / cs
    }
}

/// Resuming skips exactly the chunks acknowledged bytes cover: every chunk
/// before the resume chunk ends at or below `acked`, and the resume chunk
/// (when there is one) ends above it.
pub proof fn lemma_resume_skips_acknowledged(file_size: u64, chunk_size: u64, acked: u64)
    ensures
        resume_chunk_spec(file_size, chunk_size, acked) <= chunk_total(file_size, chunk_size),
        forall|k: int|
            0 <= k < resume_chunk_spec(file_size, chunk_size, acked) ==> chunk_spec(
                file_size,
                chunk_size,
                k,
            ).0 + #[trigger] chunk_spec(file_size, chunk_size, k).1 <= acked,
        resume_chunk_spec(file_size, chunk_size, acked) < chunk_total(file_size, chunk_size)
            ==> chunk_spec(
            file_size,
            chunk_size,
            resume_chunk_spec(file_size, chunk_size, acked) as int,
        ).0 + chunk_spec(file_size, chunk_size, resume_chunk_spec(file_size, chunk_size, acked) as int).1
            > acked,
{
    crate::protocol::lemma_chunks_tile_file(file_size, chunk_size);
    let chunks = crate::protocol::chunks_spec(file_size, chunk_size);
    let cs = positive_chunk(chunk_size);
    let n = chunk_total(file_size, chunk_size);
    let r = resume_chunk_spec(file_size, chunk_size, acked);
    if acked < file_size {
        let q = acked as nat / cs;
        assert(q * cs <= acked && acked < (q + 1) * cs) by (nonlinear_arith)
            requires
                q == acked as nat / cs,
                cs > 0,
        ;
        assert(q < n) by (nonlinear_arith)
            requires
                q * cs <= acked,
                acked < file_size,
                n == file_size as nat / cs + if file_size as nat % cs == 0 {
                    0nat
                } else {
                    1nat
                },
                cs > 0,
        ;
        assert forall|k: int| 0 <= k < r implies chunk_spec(file_size, chunk_size, k).0
            + #[trigger] chunk_spec(file_size, chunk_size, k).1 <= acked by {
            assert(chunks[k] == chunk_spec(file_size, chunk_size, k));
            assert((k + 1) * cs <= q * cs) by (nonlinear_arith)
                requires
                    k < q,
                    cs > 0,
            ;
            assert((k + 1) * cs == k * cs + cs) by (nonlinear_arith);
        }
        assert(chunks[q as int] == chunk_spec(file_size, chunk_size, q as int));
        let c = chunks[q as int];
        assert((q + 1) * cs == q * cs + cs) by (nonlinear_arith);
        if q + 1 < n {
            assert(c.0 + c.1 == chunks[(q + 1) as int].0);
        } else {
            assert(c.0 + c.1 == file_size);
        }
    } else {
        assert forall|k: int| 0 <= k < r implies chunk_spec(file_size, chunk_size, k).0
            + #[trigger] chunk_spec(file_size, chunk_size, k).1 <= acked by {
            assert(chunks[k] == chunk_spec(file_size, chunk_size, k));
        }
    }
}

} // verus!
