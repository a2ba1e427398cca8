//! Node identifiers and the wall clock they are derived from.

use vstd::prelude::*;

use std::time::{Duration, SystemTimeError};

verus! {

#[verifier::external_type_specification]
#[verifier::external_body]
pub struct ExSystemTimeError(SystemTimeError);

/// `SystemTime::elapsed` on `UNIX_EPOCH`: the time since the epoch, or an
/// error when the clock is set before it. Nothing is stated of the value: it
/// is the clock's reading.
#[verifier::external_body]
fn elapsed_since_epoch() -> Result<Duration, SystemTimeError> {
    std::time::UNIX_EPOCH.elapsed()
}

/// `Duration::as_nanos`: the whole duration in nanoseconds. `Duration` is
/// opaque here, so nothing is stated of the value.
#[verifier::external_body]
fn duration_as_nanos(d: &Duration) -> u128 {
    d.as_nanos()
}

/// The nanosecond count kept from a clock reading: the reading itself, or 0
/// when the clock could not be read (it is set before the epoch).
pub fn nanos_or_zero(reading: Option<u128>) -> (r: u128)
    ensures
        match reading {
            Some(n) => r == n,
            None => r == 0,
        },
{
    match reading {
        Some(n) => n,
        None => 0,
    }
}

/// Nanoseconds since the Unix epoch on the wall clock, 0 when the clock is
/// set before the epoch. Nothing is stated of the value: it is the clock's
/// reading, which `nanos_or_zero` turns into the count.
pub fn epoch_nanos() -> u128 {
    let reading = match elapsed_since_epoch() {
        Ok(d) => Some(duration_as_nanos(&d)),
        Err(_) => None,
    };
    nanos_or_zero(reading)
}

/// The lower-case hexadecimal digit for `d < 16`.
pub open spec fn hex_digit(d: u64) -> char {
    if d < 10 {
        ((d + 48) as u8) as char
    } else {
        ((d + 87) as u8) as char
    }
}

/// The `i`-th of the eight hexadecimal digits of `x`, most significant first.
pub open spec fn hex_nibble(x: u64, i: int) -> u64 {
    (x >> ((28 - 4 * i) as u64)) & 15u64
}

/// `x` (below 2^32) written as eight lower-case hexadecimal digits, zero
/// padded: what `{:08x}` prints.
pub open spec fn hex8(x: u64) -> Seq<char> {
    Seq::new(8, |i: int| hex_digit(hex_nibble(x, i)))
}

/// The node id made from a clock reading in nanoseconds: `morse-` and the
/// low 32 bits in hexadecimal.
pub open spec fn node_id_text(nanos: u128) -> Seq<char> {
    "morse-"@ + hex8((nanos as u64) & 0xFFFF_FFFFu64)
}

/// The node id for a clock reading of `nanos` nanoseconds.
pub fn node_id_from_nanos(nanos: u128) -> (r: String)
    ensures
        r@ == node_id_text(nanos),
{
    let x: u64 = (nanos as u64) & 0xFFFF_FFFFu64;
    let mut s = "morse-".to_owned();
    let ghost prefix = s@;
    let mut i: u64 = 0;
    while i < 8
        invariant
            i <= 8,
            prefix == "morse-"@,
            s@ == prefix + hex8(x).take(i as int),
        decreases 8 - i,
    {
        let shift: u64 = 28 - 4 * i;
        let d: u64 = (x >> shift) & 15u64;
        assert(d < 16) by (bit_vector)
            requires
                d == (x >> shift) & 15u64,
        ;
        let c: char = if d < 10 {
            ((d + 48) as u8) as char
        } else {
            ((d + 87) as u8) as char
        };
        assert(c == hex_digit(hex_nibble(x, i as int)));
        s.push(c);
        i = i + 1;
        assert(hex8(x).take(i as int) =~= hex8(x).take((i - 1) as int).push(c));
    }
    assert(hex8(x).take(8) =~= hex8(x));
    s
}

} // verus!
