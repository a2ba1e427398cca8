//! Transfer-level logic: file-name sanitising, progress sinks, transfer and
//! stream ids, and the per-chunk stream headers of a file being sent.

use vstd::prelude::*;

use crate::config::DEFAULT_CHUNK_SIZE;
use crate::protocol::{chunk_at, chunk_spec, chunk_total, FileMeta, StreamHeader};
use crate::text::{
    alphanumeric, chars_of, lemma_trim_idempotent, lemma_trim_keeps_chars, string_from_chars, trim, trim_chars,
    trim_end, trim_start, white_space,
};

verus! {

/// The character that a received file name keeps in place of `c`: letters,
/// digits, `.`, `-`, `_`, space and parentheses stay, anything else becomes
/// `_`.
pub open spec fn file_name_char(c: char) -> char {
    if alphanumeric(c) || c == '.' || c == '-' || c == '_' || c == ' ' || c == '('
        || c == ')' {
        c
    } else {
        '_'
    }
}

/// `s` with every `..` (left to right, not overlapping) replaced by a single
/// `_`, as `str::replace("..", "_")` does.
pub open spec fn collapse_dot_dot(s: Seq<char>) -> Seq<char>
    decreases s.len(),
{
    if s.len() >= 2 && s[0] == '.' && s[1] == '.' {
        seq!['_'] + collapse_dot_dot(s.skip(2))
    } else if s.len() == 0 {
        s
    } else {
        seq![s[0]] + collapse_dot_dot(s.drop_first())
    }
}

/// The file name under which a received file is stored.
pub open spec fn sanitized_file_name(name: Seq<char>) -> Seq<char> {
    let t = trim(collapse_dot_dot(name).map_values(|c: char| file_name_char(c)));
    if t.len() == 0 {
        "transfer.bin"@
    } else {
        t
    }
}

fn collapse_dot_dot_chars(src: &Vec<char>) -> (r: Vec<char>)
    ensures
        r@ == collapse_dot_dot(src@),
{
    let mut out: Vec<char> = Vec::new();
    let mut i: usize = 0;
    assert(src@.skip(0) =~= src@);
    while i < src.len()
        invariant
            i <= src.len(),
            collapse_dot_dot(src@) == out@ + collapse_dot_dot(src@.skip(i as int)),
        decreases src.len() - i,
    {
        let ghost rest = src@.skip(i as int);
        if i + 1 < src.len() && src[i] == '.' && src[i + 1] == '.' {
            assert(rest.skip(2) =~= src@.skip(i + 2));
            assert(out@.push('_') + collapse_dot_dot(src@.skip(i + 2)) =~= out@ + (seq!['_']
                + collapse_dot_dot(rest.skip(2))));
            out.push('_');
            i = i + 2;
        } else {
            let c = src[i];
            assert(rest.drop_first() =~= src@.skip(i + 1));
            assert(out@.push(c) + collapse_dot_dot(src@.skip(i + 1)) =~= out@ + (seq![c]
                + collapse_dot_dot(rest.drop_first())));
            out.push(c);
            i = i + 1;
        }
    }
    assert(src@.skip(i as int) =~= Seq::<char>::empty());
    assert(out@ + Seq::<char>::empty() =~= out@);
    out
}

/// No two consecutive characters of `s` are dots.
pub open spec fn no_dot_dot(s: Seq<char>) -> bool {
    forall|i: int| 0 <= i < s.len() - 1 ==> !(#[trigger] s[i] == '.' && s[i + 1] == '.')
}

proof fn lemma_collapse_no_dot_dot(s: Seq<char>)
    ensures
        no_dot_dot(collapse_dot_dot(s)),
    decreases s.len(),
{
    if s.len() >= 2 && s[0] == '.' && s[1] == '.' {
        let r = collapse_dot_dot(s.skip(2));
        lemma_collapse_no_dot_dot(s.skip(2));
        let c = seq!['_'] + r;
        assert forall|i: int| 0 <= i < c.len() - 1 implies !(#[trigger] c[i] == '.' && c[i + 1] == '.') by {
            if i > 0 {
                assert(c[i] == r[i - 1] && c[i + 1] == r[i]);
            }
        }
    } else if s.len() > 0 {
        let t = s.drop_first();
        let r = collapse_dot_dot(t);
        lemma_collapse_no_dot_dot(t);
        let c = seq![s[0]] + r;
        assert forall|i: int| 0 <= i < c.len() - 1 implies !(#[trigger] c[i] == '.' && c[i + 1] == '.') by {
            if i > 0 {
                assert(c[i] == r[i - 1] && c[i + 1] == r[i]);
            } else if s[0] == '.' {
                assert(t.len() > 0 && t[0] != '.');
                assert(r == seq![t[0]] + collapse_dot_dot(t.drop_first()));
            }
        }
    }
}

proof fn lemma_trim_keeps_no_dot_dot(s: Seq<char>)
    requires
        no_dot_dot(s),
    ensures
        no_dot_dot(trim_start(s)),
        no_dot_dot(trim_end(s)),
    decreases s.len(),
{
    if s.len() > 0 {
        let t = s.drop_first();
        assert forall|i: int| 0 <= i < t.len() - 1 implies !(#[trigger] t[i] == '.' && t[i + 1] == '.') by {
            assert(t[i] == s[i + 1] && t[i + 1] == s[i + 2]);
        }
        let u = s.drop_last();
        assert forall|i: int| 0 <= i < u.len() - 1 implies !(#[trigger] u[i] == '.' && u[i + 1] == '.') by {
            assert(u[i] == s[i] && u[i + 1] == s[i + 1]);
        }
        lemma_trim_keeps_no_dot_dot(t);
        lemma_trim_keeps_no_dot_dot(u);
    }
}

/// A stored file name is never empty and never holds two consecutive dots,
/// so a peer cannot make the receiver write to a parent directory.
pub proof fn lemma_sanitized_name_safe(name: Seq<char>)
    ensures
        sanitized_file_name(name).len() > 0,
        no_dot_dot(sanitized_file_name(name)),
{
    let c = collapse_dot_dot(name);
    lemma_collapse_no_dot_dot(name);
    let m = c.map_values(|ch: char| file_name_char(ch));
    assert forall|i: int| 0 <= i < m.len() - 1 implies !(#[trigger] m[i] == '.' && m[i + 1] == '.') by {
        assert(m[i] == file_name_char(c[i]) && m[i + 1] == file_name_char(c[i + 1]));
    }
    lemma_trim_keeps_no_dot_dot(m);
    lemma_trim_keeps_no_dot_dot(trim_start(m));
    if trim(m).len() == 0 {
        reveal_strlit("transfer.bin");
        let f = "transfer.bin"@;
        assert forall|i: int| 0 <= i < f.len() - 1 implies !(#[trigger] f[i] == '.' && f[i + 1] == '.') by {
        }
    }
}

/// A character a stored file name may hold: no path separator and no ASCII
/// control character.
pub open spec fn safe_name_char(c: char) -> bool {
    c != '/' && c != '\\' && (c as u32) >= 32 && c != '\u{7f}'
}

/// No stored file name holds a path separator (`/` or `\`) or an ASCII
/// control character.
pub proof fn lemma_sanitized_name_has_safe_chars(name: Seq<char>)
    ensures
        forall|i: int|
            0 <= i < sanitized_file_name(name).len() ==> safe_name_char(
                #[trigger] sanitized_file_name(name)[i],
            ),
{
    let c = collapse_dot_dot(name);
    let m = c.map_values(|ch: char| file_name_char(ch));
    assert forall|i: int| 0 <= i < m.len() implies (|ch: char| safe_name_char(ch))(#[trigger] m[i]) by {
        assert(m[i] == file_name_char(c[i]));
    }
    lemma_trim_keeps_chars(m, |ch: char| safe_name_char(ch));
    if trim(m).len() == 0 {
        reveal_strlit("transfer.bin");
    }
}

proof fn lemma_collapse_fixed(s: Seq<char>)
    requires
        no_dot_dot(s),
    ensures
        collapse_dot_dot(s) == s,
    decreases s.len(),
{
    if s.len() > 0 {
        if s.len() >= 2 {
            assert(!(s[0] == '.' && s[1] == '.'));
        }
        let t = s.drop_first();
        assert forall|i: int| 0 <= i < t.len() - 1 implies !(#[trigger] t[i] == '.' && t[i + 1] == '.') by {
            assert(t[i] == s[i + 1] && t[i + 1] == s[i + 2]);
        }
        lemma_collapse_fixed(t);
        assert(seq![s[0]] + t =~= s);
    }
}

/// Sanitising a stored file name changes nothing: the receiver stores a
/// name it already sanitised under that same name.
pub proof fn lemma_sanitize_idempotent(name: Seq<char>)
    ensures
        sanitized_file_name(sanitized_file_name(name)) == sanitized_file_name(name),
{
    let s = sanitized_file_name(name);
    lemma_sanitized_name_safe(name);
    let c = collapse_dot_dot(name);
    let m = c.map_values(|ch: char| file_name_char(ch));
    let fixed = |ch: char| file_name_char(ch) == ch;
    assert forall|i: int| 0 <= i < m.len() implies fixed(#[trigger] m[i]) by {
        assert(m[i] == file_name_char(c[i]));
    }
    lemma_trim_keeps_chars(m, fixed);
    if trim(m).len() == 0 {
        reveal_strlit("transfer.bin");
        assert(s[0] == 't' && s.last() == 'n');
        assert(trim_start(s) == s);
        assert(trim_end(s) == s);
        assert forall|i: int| 0 <= i < s.len() implies fixed(#[trigger] s[i]) by {}
    } else {
        lemma_trim_idempotent(m);
    }
    lemma_collapse_fixed(s);
    assert(s.map_values(|ch: char| file_name_char(ch)) =~= s);
}

/// Every letter or digit, `.`, `-`, `_`, space, `(` and `)` is kept as
/// itself in a stored file name; every other character becomes `_`.
pub proof fn lemma_file_name_char_keeps_allowed(c: char)
    ensures
        (alphanumeric(c) || c == '.' || c == '-' || c == '_' || c == ' ' || c == '(' || c == ')')
            ==> file_name_char(c) == c,
        !(alphanumeric(c) || c == '.' || c == '-' || c == '_' || c == ' ' || c == '(' || c == ')')
            ==> file_name_char(c) == '_',
{
}

/// A name made only of letters, digits, `.`, `-`, `_`, space, `(` and `)`,
/// with no `..` and no whitespace at either end, is stored under itself.
pub proof fn lemma_clean_name_is_kept(name: Seq<char>)
    requires
        name.len() > 0,
        forall|i: int|
            0 <= i < name.len() ==> {
                let c = #[trigger] name[i];
                alphanumeric(c) || c == '.' || c == '-' || c == '_' || c == ' ' || c == '(' || c == ')'
            },
        no_dot_dot(name),
        !white_space(name[0]),
        !white_space(name.last()),
    ensures
        sanitized_file_name(name) == name,
{
    lemma_collapse_fixed(name);
    assert forall|i: int| 0 <= i < name.len() implies file_name_char(#[trigger] name[i]) == name[i] by {
        lemma_file_name_char_keeps_allowed(name[i]);
    }
    assert(name.map_values(|ch: char| file_name_char(ch)) =~= name);
    assert(trim_start(name) == name);
    assert(trim_end(name) == name);
}

/// Make a peer-supplied file name safe to create inside the receive
/// directory: no `..`, no path separator, no ASCII control character,
/// never empty (see the laws above).
pub fn sanitize_file_name(name: &str) -> (r: String)
    ensures
        r@ == sanitized_file_name(name@),
{
    let src = collapse_dot_dot_chars(&chars_of(name));
    let mut mapped: Vec<char> = Vec::new();
    let mut i: usize = 0;
    while i < src.len()
        invariant
            i <= src.len(),
            mapped@ == src@.take(i as int).map_values(|c: char| file_name_char(c)),
        decreases src.len() - i,
    {
        let c = src[i];
        let keep = c.is_alphanumeric() || c == '.' || c == '-' || c == '_' || c == ' ' || c == '('
            || c == ')';
        let out = if keep {
            c
        } else {
            '_'
        };
        mapped.push(out);
        i = i + 1;
        assert(src@.take(i as int).map_values(|c: char| file_name_char(c)) =~= src@.take(
            (i - 1) as int,
        ).map_values(|c: char| file_name_char(c)).push(out));
    }
    assert(src@.take(src.len() as int) == src@);
    let trimmed = trim_chars(&mapped);
    if trimmed.len() == 0 {
        "transfer.bin".to_owned()
    } else {
        string_from_chars(&trimmed)
    }
}

/// Sink for progress / peer / completion notifications. The embedding
/// application implements it to bridge into its UI.
pub trait ProgressSink: Send + Sync + 'static {
    fn on_progress(&self, stream_id: u64, bytes_done: u64, bytes_total: u64);

    fn on_peer_discovered(&self, peer_id: &str, peer_name: &str, addr: &str);

    fn on_transfer_complete(&self, file_name: &str, total_bytes: u64);
}

/// A sink that ignores every notification.
#[derive(Debug)]
pub struct NullSink;

impl ProgressSink for NullSink {
    fn on_progress(&self, stream_id: u64, bytes_done: u64, bytes_total: u64) {
    }

    fn on_peer_discovered(&self, peer_id: &str, peer_name: &str, addr: &str) {
    }

    fn on_transfer_complete(&self, file_name: &str, total_bytes: u64) {
    }
}

/// The progress-callback id of a data stream: stable per (file, chunk).
pub open spec fn stream_id_spec(transfer_id: u64, file_slot: u64, chunk_index: u64) -> u64 {
    (transfer_id << 16u64) ^ (file_slot << 8u64) ^ (chunk_index & 0xFFu64)
}

/// Progress-callback id for the data stream that carries `header`, received
/// into file slot `idx`.
pub fn stream_id_64(header: &StreamHeader, idx: usize) -> (r: u64)
    ensures
        r == stream_id_spec(header.transfer_id, idx as u64, header.chunk_index),
{
    (header.transfer_id << 16u64) ^ ((idx as u64) << 8u64) ^ (header.chunk_index & 0xFFu64)
}

/// `x` rotated left by `k` bits (`u64::rotate_left`), for `0 < k < 64`.
pub open spec fn rotl64(x: u64, k: u64) -> u64 {
    (x << k) | (x >> ((64 - k) as u64))
}

/// The transfer id made from a timestamp in nanoseconds, a process id and a
/// per-process seed.
pub open spec fn transfer_id_spec(nanos: u128, pid: u32, seed: u32) -> u64 {
    (nanos as u64) ^ rotl64(pid as u64, 17) ^ ((seed as u64) << 1u64)
}

/// Mix time-based entropy with a process id and a per-process seed into a
/// transfer id.
pub fn transfer_id_from(nanos: u128, pid: u32, seed: u32) -> (r: u64)
    ensures
        r == transfer_id_spec(nanos, pid, seed),
{
    let p = pid as u64;
    let rot: u64 = (p << 17u64) | (p >> 47u64);
    (nanos as u64) ^ rot ^ ((seed as u64) << 1u64)
}

// ---------------------------------------------------------------------------
// Sending one file: chunk size and per-chunk stream headers
// ---------------------------------------------------------------------------

/// The chunk size a file is sent with: `chunk_size`, or the default for 0.
pub open spec fn send_chunk_spec(chunk_size: u64) -> u64 {
    if chunk_size == 0 {
        DEFAULT_CHUNK_SIZE
    } else {
        chunk_size
    }
}

/// The chunk size a file is sent with: `chunk_size`, or the default for 0.
pub fn send_chunk_size(chunk_size: u64) -> (r: u64)
    ensures
        r == send_chunk_spec(chunk_size),
        r > 0,
{
    if chunk_size == 0 {
        DEFAULT_CHUNK_SIZE
    } else {
        chunk_size
    }
}

/// The `total_chunks` that every header of a file announces: the number of
/// chunks, at least 1.
pub open spec fn announced_chunks(file_size: u64, chunk_size: u64) -> nat {
    let n = chunk_total(file_size, chunk_size);
    if n == 0 {
        1
    } else {
        n
    }
}

/// The header of the data stream that carries chunk `chunk_index` of the
/// file `meta` (with the chunk size already chosen, see `send_chunk_size`).
pub fn chunk_header(transfer_id: u64, meta: &FileMeta, chunk_size: u64, chunk_index: u64) -> (r:
    StreamHeader)
    requires
        chunk_size > 0,
        chunk_index < chunk_total(meta.size, chunk_size),
    ensures
        r.transfer_id == transfer_id,
        r.file_index == meta.file_index,
        r.chunk_index == chunk_index,
        r.offset == chunk_spec(meta.size, chunk_size, chunk_index as int).0,
        r.len == chunk_spec(meta.size, chunk_size, chunk_index as int).1 as u32,
        r.file_size == meta.size,
        r.file_name@ == meta.name@,
        r.mime@ == meta.mime@,
        r.total_chunks == announced_chunks(meta.size, chunk_size),
{
    let (offset, len) = chunk_at(meta.size, chunk_size, chunk_index);
    let n = crate::protocol::chunk_count(meta.size, chunk_size);
    let total = if n == 0 {
        1
    } else {
        n
    };
    StreamHeader {
        transfer_id,
        file_index: meta.file_index,
        chunk_index,
        offset,
        len: len as u32,
        file_size: meta.size,
        file_name: meta.name.clone(),
        mime: meta.mime.clone(),
        total_chunks: total,
    }
}

} // verus!
