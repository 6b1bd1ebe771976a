//! Codec for the 4-byte checksummed address entries ("pointers") that make
//! up the mode and temperature-range tables: a 24-bit address split as a
//! 16-bit low part and an 8-bit high part, then a one-byte checksum.

use vstd::prelude::*;

use crate::bytes::{combine24, le16};
use crate::errors::{ChecksumError, WbfError};

verus! {

/// A parsed table pointer.
#[allow(non_camel_case_types)]
#[derive(Clone, Copy, Debug, PartialEq, Eq, Structural)]
pub struct pointer {
    /// The recombined 24-bit file offset.
    pub addr: u32,
    /// The stored checksum byte.
    pub checksum: u8,
}

/// The checksum a pointer with address bytes `b0`, `b1`, `b2` must carry.
pub open spec fn ptr_cksum(b0: u8, b1: u8, b2: u8) -> u8 {
    ((b0 + b1 + b2) % 256) as u8
}

/// The address stored by the 4-byte pointer record at `off`.
pub open spec fn ptr_addr(b: Seq<u8>, off: int) -> u32 {
    combine24(le16(b, off) as u16, b[off + 2])
}

/// Whether the pointer record at `off` carries the checksum of its three
/// address bytes.
pub open spec fn ptr_valid(b: Seq<u8>, off: int) -> bool {
    b[off + 3] == ptr_cksum(b[off], b[off + 1], b[off + 2])
}

impl pointer {
    /// Reads the 4-byte pointer record at `off` without judging its
    /// checksum.
    pub fn __init__(data: &[u8], off: usize) -> (r: pointer)
        requires
            off + 4 <= data@.len(),
        ensures
            r.addr == ptr_addr(data@, off as int),
            r.addr < 16777216,
            r.checksum == data@[off + 3],
    {
        let lo: u16 = (data[off] as u16) + 256 * (data[off + 1] as u16);
        let hi: u8 = data[off + 2];
        proof {
            crate::bytes::lemma_combine24_split(lo, hi);
        }
        pointer { addr: (lo as u32) + 65536 * (hi as u32), checksum: data[off + 3] }
    }

    /// Parses the pointer record at `off` and verifies its checksum:
    /// the per-entry validity gate of every table walk. Fails with
    /// `ChecksumError::Pointer` exactly when the stored checksum is not
    /// the sum, modulo 256, of the three address bytes.
    pub fn parse(data: &[u8], off: usize) -> (r: Result<pointer, WbfError>)
        requires
            off + 4 <= data@.len(),
        ensures
            ptr_valid(data@, off as int) ==> (r matches Ok(p) && p.addr == ptr_addr(
                data@,
                off as int,
            ) && p.addr < 16777216),
            !ptr_valid(data@, off as int) ==> r == Err::<pointer, _>(
                WbfError::Checksum(ChecksumError::Pointer),
            ),
    {
        let p = Self::__init__(data, off);
        let sum: u16 = (data[off] as u16) + (data[off + 1] as u16) + (data[off + 2] as u16);
        if (sum % 256) as u8 == p.checksum {
            Ok(p)
        } else {
            Err(WbfError::Checksum(ChecksumError::Pointer))
        }
    }
}

/// A pointer whose fourth byte is the sum, modulo 256, of its three
/// address bytes validates, whatever the address bytes are.
pub proof fn lemma_pointer_checksum(b0: u8, b1: u8, b2: u8)
    ensures
        ptr_valid(seq![b0, b1, b2, ptr_cksum(b0, b1, b2)], 0),
{
}

/// Corrupting exactly one byte of a valid pointer record always makes
/// validation fail: the checksum catches every single-byte error.
pub proof fn lemma_pointer_corruption(b0: u8, b1: u8, b2: u8, c0: u8, c1: u8, c2: u8, c3: u8)
    requires
        ({
            let d0: int = if c0 != b0 { 1 } else { 0 };
            let d1: int = if c1 != b1 { 1 } else { 0 };
            let d2: int = if c2 != b2 { 1 } else { 0 };
            let d3: int = if c3 != ptr_cksum(b0, b1, b2) { 1 } else { 0 };
            d0 + d1 + d2 + d3 == 1
        }),
    ensures
        !ptr_valid(seq![c0, c1, c2, c3], 0),
{
    let b3 = ptr_cksum(b0, b1, b2);
    if c3 != b3 {
        assert(c0 == b0 && c1 == b1 && c2 == b2);
    } else {
        assert(ptr_cksum(c0, c1, c2) != b3) by {
            lemma_one_addend_changes_cksum(b0, b1, b2, c0, c1, c2);
        }
    }
}

/// Changing exactly one of the three address bytes changes their sum
/// modulo 256.
proof fn lemma_one_addend_changes_cksum(b0: u8, b1: u8, b2: u8, c0: u8, c1: u8, c2: u8)
    requires
        ({
            let d0: int = if c0 != b0 { 1 } else { 0 };
            let d1: int = if c1 != b1 { 1 } else { 0 };
            let d2: int = if c2 != b2 { 1 } else { 0 };
            d0 + d1 + d2 == 1
        }),
    ensures
        ptr_cksum(c0, c1, c2) != ptr_cksum(b0, b1, b2),
{
    assert(((c0 as u32 + c1 as u32 + c2 as u32) % 256) != ((b0 as u32 + b1 as u32 + b2 as u32)
        % 256)) by (bit_vector)
        requires
            (c0 != b0 && c1 == b1 && c2 == b2) || (c0 == b0 && c1 != b1 && c2 == b2) || (c0 == b0
                && c1 == b1 && c2 != b2),
    ;
}

} // verus!
