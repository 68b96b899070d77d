//! Arithmetic on the two cyclic clocks of a packet stream: the 16-bit
//! sequence number and the 32-bit media timestamp.

use vstd::prelude::*;

verus! {

/// Number of positions in the sequence-number space.
pub const SEQUENCE_SPACE: u32 = 65536;

/// Half of the sequence space: a position this far ahead of another, or
/// farther, counts as lying behind it.
pub const HALF_SPACE: u16 = 32768;

/// Steps to take forward from `from` to reach `to`, going round at 65536.
pub open spec fn forward_distance(from: u16, to: u16) -> int {
    (to - from) % 65536
}

/// The position `by` steps after `seq`, going round at 65536.
pub open spec fn advanced(seq: u16, by: int) -> u16 {
    ((seq + by) % 65536) as u16
}

/// Whether `seq` lies behind `cursor`: reaching it going forward takes half of
/// the sequence space or more.
pub open spec fn lies_behind(seq: u16, cursor: u16) -> bool {
    forward_distance(cursor, seq) >= 32768
}

/// Ticks from `from` forward to `to` on the 32-bit media clock.
pub open spec fn ticks_between(from: u32, to: u32) -> int {
    (to - from) % 0x1_0000_0000
}

/// Forward cyclic distance between two sequence numbers.
pub fn seq_distance(from: u16, to: u16) -> (d: u16)
    ensures
        d == forward_distance(from, to),
{
    to.wrapping_sub(from)
}

/// The sequence number `by` positions after `seq`.
pub fn seq_advance(seq: u16, by: u16) -> (r: u16)
    ensures
        r == advanced(seq, by as int),
{
    seq.wrapping_add(by)
}

/// Whether a packet numbered `seq` has already been passed by `cursor`.
pub fn seq_lies_behind(seq: u16, cursor: u16) -> (b: bool)
    ensures
        b == lies_behind(seq, cursor),
{
    seq_distance(cursor, seq) >= HALF_SPACE
}

/// Forward cyclic distance between two media timestamps.
pub fn timestamp_distance(from: u32, to: u32) -> (d: u32)
    ensures
        d == ticks_between(from, to),
{
    to.wrapping_sub(from)
}

} // verus!
