//! Little-endian byte readers and writers shared by the codecs, with the
//! facts that connect a recombined integer back to its bytes.

use vstd::prelude::*;

verus! {

/// The 16-bit little-endian integer stored at `i`.
pub open spec fn le16(b: Seq<u8>, i: int) -> int {
    b[i] + 256 * b[i + 1]
}

/// The 32-bit little-endian integer stored at `i`.
pub open spec fn le32(b: Seq<u8>, i: int) -> int {
    b[i] + 256 * b[i + 1] + 65536 * b[i + 2] + 16777216 * b[i + 3]
}

/// A 24-bit address split into a 16-bit low part and an 8-bit high part.
pub open spec fn combine24(lo: u16, hi: u8) -> u32 {
    (lo + 65536 * hi) as u32
}

/// Low byte of a 16-bit value.
pub open spec fn lo8(x: u16) -> u8 {
    (x % 256) as u8
}

/// High byte of a 16-bit value.
pub open spec fn hi8(x: u16) -> u8 {
    (x / 256) as u8
}

/// Byte `k` (0 = least significant) of a 32-bit value.
pub open spec fn byte_of(x: u32, k: int) -> u8 {
    if k == 0 {
        (x % 256) as u8
    } else if k == 1 {
        ((x / 256) % 256) as u8
    } else if k == 2 {
        ((x / 65536) % 256) as u8
    } else {
        (x / 16777216) as u8
    }
}

pub fn read_u16(data: &[u8], i: usize) -> (r: u16)
    requires
        i + 2 <= data@.len(),
    ensures
        r == le16(data@, i as int),
{
    (data[i] as u16) + 256 * (data[i + 1] as u16)
}

pub fn read_u32(data: &[u8], i: usize) -> (r: u32)
    requires
        i + 4 <= data@.len(),
    ensures
        r == le32(data@, i as int),
{
    (data[i] as u32) + 256 * (data[i + 1] as u32) + 65536 * (data[i + 2] as u32) + 16777216 * (
    data[i + 3] as u32)
}

/// Bytes of a 16-bit value recombine to it, and recombination inverts
/// the split.
pub proof fn lemma_le16_split(b0: u8, b1: u8)
    ensures
        lo8((b0 + 256 * b1) as u16) == b0,
        hi8((b0 + 256 * b1) as u16) == b1,
{
    assert(((b0 + 256 * b1) as u16) % 256 == b0 && ((b0 + 256 * b1) as u16) / 256 == b1)
        by (bit_vector);
}

/// Bytes of a 32-bit value recombine to it, and recombination inverts
/// the split.
pub proof fn lemma_le32_split(b0: u8, b1: u8, b2: u8, b3: u8)
    ensures
        byte_of((b0 + 256 * b1 + 65536 * b2 + 16777216 * b3) as u32, 0) == b0,
        byte_of((b0 + 256 * b1 + 65536 * b2 + 16777216 * b3) as u32, 1) == b1,
        byte_of((b0 + 256 * b1 + 65536 * b2 + 16777216 * b3) as u32, 2) == b2,
        byte_of((b0 + 256 * b1 + 65536 * b2 + 16777216 * b3) as u32, 3) == b3,
{
    let x = (b0 + 256 * b1 + 65536 * b2 + 16777216 * b3) as u32;
    assert(x % 256 == b0 && (x / 256) % 256 == b1 && (x / 65536) % 256 == b2 && x / 16777216 == b3)
        by (bit_vector)
        requires
            x == (b0 + 256 * b1 + 65536 * b2 + 16777216 * b3) as u32,
    ;
}

/// A combined 24-bit address splits back into the parts it was made of,
/// and stays below 2^24.
pub proof fn lemma_combine24_split(lo: u16, hi: u8)
    ensures
        combine24(lo, hi) < 16777216,
        combine24(lo, hi) % 65536 == lo,
        combine24(lo, hi) / 65536 == hi,
{
    let x = combine24(lo, hi);
    assert(x < 16777216 && x % 65536 == lo && x / 65536 == hi) by (bit_vector)
        requires
            x == (lo + 65536 * hi) as u32,
    ;
}

} // verus!
