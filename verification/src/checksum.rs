//! The checksum validators: the whole-file CRC stored in the header, the
//! trailing byte of the temperature-range boundary table, and the trailing
//! byte of the extra-waveform-info block.

use vstd::prelude::*;

use crate::errors::{ChecksumError, FormatError, WbfError};
use crate::header::waveform_data_header;

verus! {

/// The CRC-32 of a byte sequence, as the deflate family of formats
/// computes it. Named only: the trusted wrapper below ties it to the
/// outside implementation.
pub uninterp spec fn crc32_of(b: Seq<u8>) -> u32;

/// Relies on `crc32fast::hash`: the IEEE CRC-32 of the bytes, a function
/// of the bytes alone.
#[verifier::external_body]
fn crc32(data: &[u8]) -> (r: u32)
    ensures
        r == crc32_of(data@),
{
    crc32fast::hash(data)
}

/// The input bytes with the four checksum bytes at the front replaced by
/// zero: the region the whole-file CRC is computed over.
pub open spec fn spec_zeroed(b: Seq<u8>) -> Seq<u8> {
    seq![0u8, 0u8, 0u8, 0u8] + b.skip(4)
}

/// The sum of the `n` bytes of `b` starting at `off`.
pub open spec fn byte_sum(b: Seq<u8>, off: int, n: int) -> int
    decreases n,
{
    if n <= 0 {
        0
    } else {
        byte_sum(b, off, n - 1) + b[off + n - 1]
    }
}

/// Recomputes the whole-file CRC with the stored checksum zeroed out and
/// holds it against the header's `checksum` field. Fails with
/// `ChecksumError::Header` exactly on a mismatch.
pub fn compare_checksum(data: &[u8], header: &waveform_data_header) -> (r: Result<(), WbfError>)
    requires
        header.filesize == data@.len(),
        data@.len() >= 4,
    ensures
        r matches Ok(_) <==> crc32_of(spec_zeroed(data@)) == header.checksum,
        r matches Err(e) ==> e == WbfError::Checksum(ChecksumError::Header),
{
    let mut zeroed: Vec<u8> = Vec::new();
    zeroed.push(0);
    zeroed.push(0);
    zeroed.push(0);
    zeroed.push(0);
    let n = data.len();
    let mut i: usize = 4;
    while i < n
        invariant
            4 <= i <= n,
            n == data@.len(),
            zeroed@ == seq![0u8, 0u8, 0u8, 0u8] + data@.subrange(4, i as int),
        decreases n - i,
    {
        zeroed.push(data[i]);
        proof {
            assert(data@.subrange(4, i + 1) =~= data@.subrange(4, i as int) + seq![data@[i as int]]);
            assert(zeroed@ =~= seq![0u8, 0u8, 0u8, 0u8] + data@.subrange(4, i + 1));
        }
        i = i + 1;
    }
    proof {
        assert(data@.subrange(4, n as int) =~= data@.skip(4));
    }
    let crc = crc32(zeroed.as_slice());
    if crc == header.checksum {
        Ok(())
    } else {
        Err(WbfError::Checksum(ChecksumError::Header))
    }
}

/// Whether the temperature-range boundary table at `off` carries its
/// checksum: the sum, modulo 256, of its `count + 1` boundary bytes must
/// equal the byte after them.
pub open spec fn tr_table_valid(b: Seq<u8>, off: int, count: int) -> bool {
    byte_sum(b, off, count + 1) % 256 == b[off + count + 1]
}

/// Validates the temperature-range boundary table: `count` ranges drawn
/// from `count + 1` boundary bytes at `off`, followed by one checksum
/// byte. Fails with `FormatError::Truncated` when the table overruns the
/// input, else with `ChecksumError::TempRangeTable` exactly on a checksum
/// mismatch.
pub fn parse_temp_range_table(data: &[u8], off: usize, count: usize) -> (r: Result<(), WbfError>)
    requires
        count <= 256,
    ensures
        off + count + 2 > data@.len() ==> r == Err::<(), _>(
            WbfError::Format(FormatError::Truncated),
        ),
        off + count + 2 <= data@.len() ==> (r matches Ok(_) <==> tr_table_valid(
            data@,
            off as int,
            count as int,
        )),
        off + count + 2 <= data@.len() && !tr_table_valid(data@, off as int, count as int) ==> r
            == Err::<(), _>(WbfError::Checksum(ChecksumError::TempRangeTable)),
{
    let dlen = data.len();
    if dlen < count + 2 || off > dlen - count - 2 {
        return Err(WbfError::Format(FormatError::Truncated));
    }
    let sum = sum_bytes(data, off, count + 1);
    if (sum % 256) as u8 == data[off + count + 1] {
        Ok(())
    } else {
        Err(WbfError::Checksum(ChecksumError::TempRangeTable))
    }
}

/// Sums `n` bytes starting at `off`; `n` is at most 258 in every caller,
/// far below any overflow.
fn sum_bytes(data: &[u8], off: usize, n: usize) -> (r: u32)
    requires
        off + n <= data@.len(),
        n <= 65535,
    ensures
        r == byte_sum(data@, off as int, n as int),
{
    let dlen = data.len();
    let mut sum: u32 = 0;
    let mut i: usize = 0;
    while i < n
        invariant
            0 <= i <= n,
            n <= 65535,
            off + n <= dlen,
            dlen == data@.len(),
            sum == byte_sum(data@, off as int, i as int),
            sum <= 255 * i,
        decreases n - i,
    {
        sum = sum + data[off + i] as u32;
        i = i + 1;
    }
    sum
}

/// A printable byte of the extra-waveform-info text: the ASCII range from
/// the space up to, not including, the delete control.
pub open spec fn is_printable(b: u8) -> bool {
    32 <= b < 127
}

/// How many bytes of `s` are not printable.
pub open spec fn non_printable_count(s: Seq<u8>) -> int
    decreases s.len(),
{
    if s.len() == 0 {
        0
    } else {
        non_printable_count(s.drop_last()) + if is_printable(s.last()) {
            0int
        } else {
            1int
        }
    }
}

/// What the extra-waveform-info block holds: its text bytes (typically the
/// waveform's original source filename) and how many of them are not
/// printable — reported, but never a failure by itself.
pub struct XwiaInfo {
    pub text: Vec<u8>,
    pub non_printables: usize,
}

/// Whether the extra-waveform-info block at `off` carries its checksum:
/// the sum, modulo 256, of the length byte and the text bytes must equal
/// the byte after them.
pub open spec fn xwia_valid(b: Seq<u8>, off: int) -> bool {
    byte_sum(b, off, 1 + b[off]) % 256 == b[off + 1 + b[off]]
}

/// Validates the extra-waveform-info block at `off`: one length byte,
/// that many text bytes, one checksum byte. Fails with
/// `FormatError::Truncated` when the block overruns the input, else with
/// `ChecksumError::ExtraWaveformInfo` exactly on a checksum mismatch; on
/// success hands back the text and its non-printable count.
pub fn check_xwia(data: &[u8], off: usize) -> (r: Result<XwiaInfo, WbfError>)
    ensures
        off + 2 > data@.len() || off + 2 + data@[off as int] > data@.len() ==> r == Err::<
            XwiaInfo,
            _,
        >(WbfError::Format(FormatError::Truncated)),
        off + 2 <= data@.len() && off + 2 + data@[off as int] <= data@.len() ==> {
            &&& (r matches Ok(_) <==> xwia_valid(data@, off as int))
            &&& (r matches Ok(info) ==> info.text@ == data@.subrange(
                off + 1,
                off + 1 + data@[off as int],
            ) && info.non_printables == non_printable_count(info.text@))
            &&& (!xwia_valid(data@, off as int) ==> r == Err::<XwiaInfo, _>(
                WbfError::Checksum(ChecksumError::ExtraWaveformInfo),
            ))
        },
{
    let dlen = data.len();
    if dlen < 2 || off > dlen - 2 {
        return Err(WbfError::Format(FormatError::Truncated));
    }
    let len = data[off] as usize;
    if dlen - off - 2 < len {
        return Err(WbfError::Format(FormatError::Truncated));
    }
    let sum = sum_bytes(data, off, 1 + len);
    if (sum % 256) as u8 != data[off + 1 + len] {
        return Err(WbfError::Checksum(ChecksumError::ExtraWaveformInfo));
    }
    let mut text: Vec<u8> = Vec::new();
    let mut non_printables: usize = 0;
    let mut i: usize = 0;
    while i < len
        invariant
            0 <= i <= len,
            off + 2 + len <= dlen,
            dlen == data@.len(),
            text@ == data@.subrange(off + 1, off + 1 + i),
            non_printables == non_printable_count(text@),
            non_printables <= i,
        decreases len - i,
    {
        let b = data[off + 1 + i];
        text.push(b);
        if !(32 <= b && b < 127) {
            non_printables = non_printables + 1;
        }
        proof {
            assert(text@ =~= data@.subrange(off + 1, off + 1 + (i + 1)));
            assert(text@.drop_last() =~= data@.subrange(off + 1, off + 1 + i));
            assert(text@.last() == b);
        }
        i = i + 1;
    }
    Ok(XwiaInfo { text, non_printables })
}

} // verus!
