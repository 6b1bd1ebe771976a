//! The packed display state: one byte holding four 2-bit values, one per
//! pixel group, and its expansion into one byte per value. Also the small
//! helpers that read a temperature range pair and shift a biased byte.

use vstd::prelude::*;

verus! {

/// One byte's worth of display states: four 2-bit values `s0..s3`.
#[allow(non_camel_case_types)]
#[derive(Clone, Copy, PartialEq, Eq, Structural, Debug)]
pub struct packed_state {
    pub s0: u8,
    pub s1: u8,
    pub s2: u8,
    pub s3: u8,
}

/// The four bytes that one packed state byte expands to, in emission
/// order `s0, s1, s2, s3`.
pub open spec fn spec_unpack(b: u8) -> Seq<u8> {
    seq![(b % 4) as u8, ((b / 4) % 4) as u8, ((b / 16) % 4) as u8, (b / 64) as u8]
}

impl packed_state {
    /// Splits a byte into its four 2-bit states, least significant first.
    pub fn __init__(b: u8) -> (r: packed_state)
        ensures
            r.s0 == b % 4,
            r.s1 == (b / 4) % 4,
            r.s2 == (b / 16) % 4,
            r.s3 == b / 64,
            seq![r.s0, r.s1, r.s2, r.s3] == spec_unpack(b),
    {
        packed_state { s0: b % 4, s1: (b / 4) % 4, s2: (b / 16) % 4, s3: b / 64 }
    }
}

/// The `(from, to)` bounds of temperature range `i` in a boundary table:
/// two adjacent bytes, inclusive bounds in degrees.
pub fn temp_range(table: &[u8], i: usize) -> (r: (u8, u8))
    requires
        i + 2 <= table@.len(),
    ensures
        r.0 == table@[i as int],
        r.1 == table@[i + 1],
{
    (table[i], table[i + 1])
}

/// Removes the high-bit bias from a byte-sized value: a set bit 7 marks
/// an offset of 128 to take back out.
#[allow(non_snake_case)]
pub fn toS(n: i32) -> (r: i32)
    ensures
        r == (if n & 128 != 0 {
            n - 128
        } else {
            n as int
        }),
{
    if n & 128 != 0 {
        proof {
            assert(n & 128 != 0 ==> n >= i32::MIN + 128) by (bit_vector);
        }
        n - 128
    } else {
        n
    }
}

} // verus!
