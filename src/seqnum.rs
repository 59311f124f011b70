//! Cyclic arithmetic on 32-bit TCP sequence numbers.
use vstd::prelude::*;

verus! {

/// Size of the sequence-number space.
pub open spec fn modulus() -> int {
    0x1_0000_0000
}

/// The sequence number that `v` denotes once reduced modulo 2^32.
pub open spec fn wrap(v: int) -> u32 {
    (v % modulus()) as u32
}

/// Clockwise distance from `from` to `to` on the sequence-number circle.
pub open spec fn seq_dist(from: u32, to: u32) -> int {
    (to as int - from as int) % modulus()
}

/// `x` lies strictly clockwise between `start` and `end`: it is not `start`,
/// and walking clockwise from `start` one meets `x` before meeting `end`.
pub open spec fn between_wrapped(start: u32, x: u32, end: u32) -> bool {
    x != start && seq_dist(start, x) < seq_dist(start, end)
}

/// `a` is at or before `b` in sequence-space order: `b` is reached from `a`
/// by moving less than half way round the circle.
pub open spec fn seq_le(a: u32, b: u32) -> bool {
    seq_dist(a, b) < modulus() / 2
}

/// Nothing lies between `start` and itself, and neither end of an interval
/// lies within it.
pub proof fn lemma_between_excludes_ends(start: u32, x: u32, end: u32)
    ensures
        !between_wrapped(start, start, end),
        !between_wrapped(start, end, end),
        !between_wrapped(start, x, start),
{
}

/// Distance on the circle without the modulo.
pub proof fn lemma_dist(a: u32, b: u32)
    ensures
        seq_dist(a, b) == if b >= a {
            b - a
        } else {
            b - a + modulus()
        },
{
}

/// Reduction of a value within one turn of the circle.
pub proof fn lemma_wrap(v: int)
    requires
        -modulus() <= v < 2 * modulus(),
    ensures
        wrap(v) as int == if v < 0 {
            v + modulus()
        } else if v >= modulus() {
            v - modulus()
        } else {
            v
        },
{
}

/// Adds `d` to the sequence number `a` modulo 2^32.
pub fn seq_add(a: u32, d: u32) -> (r: u32)
    ensures
        r == wrap(a + d),
{
    a.wrapping_add(d)
}

/// Subtracts `d` from the sequence number `a` modulo 2^32.
pub fn seq_sub(a: u32, d: u32) -> (r: u32)
    ensures
        r == wrap(a - d),
{
    a.wrapping_sub(d)
}

/// Decides whether `x` lies strictly between `start` and `end` when the 32-bit
/// sequence space is read as a circle.
pub fn is_between_wrapped(start: u32, x: u32, end: u32) -> (r: bool)
    ensures
        r == between_wrapped(start, x, end),
{
    if start == x {
        false
    } else if start < x {
        // x is between unless start <= end <= x
        !(end >= start && end <= x)
    } else {
        // x is between only when x < end < start
        end < start && end > x
    }
}

} // verus!
