//! The whole pipeline over one input buffer: header parsing and
//! validation, the table and extra-info checksums, the discovery pass,
//! and — when conversion is requested — the emission pass that writes the
//! sibling container.

use vstd::prelude::*;

use crate::addrset::{spec_add, AddressSet};
use crate::checksum::{
    check_xwia, compare_checksum, crc32_of, parse_temp_range_table, spec_zeroed, tr_table_valid,
    xwia_valid, XwiaInfo,
};
use crate::errors::{CapacityError, ChecksumError, FormatError, WbfError};
use crate::header::{waveform_data_header, HEADER_SIZE};
use crate::outbuf::{spec_pad, spec_write, OutBuf};
use crate::walker::{
    discover_addresses, emit_modes, spec_emit_modes, spec_pass1_modes, spec_write_table, st_of,
    EmitState, EmittedMap,
};
use crate::{MAX_MODES, MAX_WAVEFORMS};

verus! {

/// Where the mode pointer table starts: one past the extra-waveform-info
/// block when the header points at one, as the walk always computes it.
pub open spec fn spec_modes_start(b: Seq<u8>, h: waveform_data_header) -> int {
    if h.xwia != 0 {
        h.xwia + 2 + b[h.xwia as int]
    } else {
        2
    }
}

/// Everything `convert_wbf` does, replayed over the mathematical views:
/// header, size, bits-per-pixel and whole-file checksum validation, the
/// temperature-range table and extra-info checksums, the discovery pass
/// with the file-size sentinel appended, the emission pass, and the final
/// mode table patch. The result is the output's exact bytes, or the first
/// failure.
pub open spec fn spec_convert(data: Seq<u8>) -> Result<Seq<u8>, WbfError> {
    if data.len() < HEADER_SIZE {
        Err(WbfError::Format(FormatError::TruncatedHeader))
    } else {
        let h = waveform_data_header::spec_parse(data);
        let trc1 = h.trc + 1;
        let mcount = h.mc + 1;
        if h.filesize != data.len() {
            Err(WbfError::Format(FormatError::SizeMismatch))
        } else if h.luts & 12 == 4 {
            Err(WbfError::Format(FormatError::Unsupported5Bit))
        } else if crc32_of(spec_zeroed(data)) != h.checksum {
            Err(WbfError::Checksum(ChecksumError::Header))
        } else if HEADER_SIZE + trc1 + 2 > data.len() {
            Err(WbfError::Format(FormatError::Truncated))
        } else if !tr_table_valid(data, HEADER_SIZE as int, trc1 as int) {
            Err(WbfError::Checksum(ChecksumError::TempRangeTable))
        } else if h.xwia != 0 && (h.xwia + 2 > data.len() || h.xwia + 2 + data[h.xwia as int]
            > data.len()) {
            Err(WbfError::Format(FormatError::Truncated))
        } else if h.xwia != 0 && !xwia_valid(data, h.xwia as int) {
            Err(WbfError::Checksum(ChecksumError::ExtraWaveformInfo))
        } else {
            match spec_pass1_modes(
                data,
                spec_modes_start(data, h),
                0,
                mcount as int,
                trc1 as int,
                Seq::empty(),
            ) {
                Err(e) => Err(e),
                Ok(ws0) => match spec_add(ws0, data.len() as u32, MAX_WAVEFORMS as nat) {
                    None => Err(WbfError::Capacity(CapacityError::Waveform)),
                    Some(ws) => {
                        let out0 = spec_write(Seq::empty(), 0, h.spec_serialize());
                        let out1 = spec_write(
                            out0,
                            HEADER_SIZE as int,
                            data.subrange(HEADER_SIZE as int, HEADER_SIZE + trc1 + 1),
                        );
                        let table_base = HEADER_SIZE + trc1 + 1;
                        let out2 = spec_pad(out1, table_base + 8 * mcount);
                        let st0 = EmitState {
                            out: out2,
                            pos: table_base + 8 * mcount,
                            mode_slots: Seq::empty(),
                            emitted: Seq::empty(),
                        };
                        match spec_emit_modes(
                            data,
                            ws,
                            spec_modes_start(data, h),
                            0,
                            mcount as int,
                            trc1 as int,
                            st0,
                        ) {
                            Err(e) => Err(e),
                            Ok(st) => Ok(
                                spec_write_table(st.out, table_base as int, st.mode_slots, 0),
                            ),
                        }
                    },
                },
            }
        }
    }
}

/// Converts a compiled waveform file into its decompressed sibling form:
/// the same header, the temperature-range boundary table, reserved and
/// patched mode/temperature-range tables, and every unique waveform
/// expanded exactly once. The returned bytes are exactly what the
/// specification-level pipeline produces; any failure aborts the whole
/// conversion with the first error, and no output exists.
pub fn convert_wbf(data: &[u8]) -> (r: Result<Vec<u8>, WbfError>)
    ensures
        match r {
            Ok(v) => spec_convert(data@) == Ok::<Seq<u8>, WbfError>(v@),
            Err(e) => spec_convert(data@) == Err::<Seq<u8>, _>(e),
        },
{
    let header = match waveform_data_header::__init__(data) {
        Ok(h) => h,
        Err(e) => {
            return Err(e);
        },
    };
    let dlen = data.len();
    if header.filesize as usize != dlen {
        return Err(WbfError::Format(FormatError::SizeMismatch));
    }
    if crate::header::get_bits_per_pixel(&header) != 4 {
        return Err(WbfError::Format(FormatError::Unsupported5Bit));
    }
    match compare_checksum(data, &header) {
        Ok(_) => (),
        Err(e) => {
            return Err(e);
        },
    }
    let trc1 = header.trc as usize + 1;
    let mcount = header.mc as usize + 1;
    match parse_temp_range_table(data, HEADER_SIZE, trc1) {
        Ok(_) => (),
        Err(e) => {
            return Err(e);
        },
    }
    let xwia_len: usize;
    if header.xwia != 0 {
        match check_xwia(data, header.xwia as usize) {
            Ok(_info) => (),
            Err(e) => {
                return Err(e);
            },
        }
        xwia_len = data[header.xwia as usize] as usize;
    } else {
        xwia_len = 0;
    }
    let modes_start: usize = if header.xwia != 0 {
        header.xwia as usize + 2 + xwia_len
    } else {
        2
    };
    let mut ws = match discover_addresses(data, modes_start, mcount, trc1) {
        Ok(s) => s,
        Err(e) => {
            return Err(e);
        },
    };
    match ws.add_addr(dlen as u32) {
        Ok(_) => (),
        Err(e) => {
            return Err(e);
        },
    }
    let mut out = OutBuf::new();
    let hbytes = header.__bytes__();
    out.write(hbytes.as_slice());
    let table_copy = copy_region(data, HEADER_SIZE, trc1 + 1);
    out.write(table_copy.as_slice());
    let table_base = HEADER_SIZE + trc1 + 1;
    out.seek_cur(8 * mcount);
    proof {
        crate::outbuf::lemma_write_len(Seq::empty(), 0, header.spec_serialize());
        crate::outbuf::lemma_write_len(
            spec_write(Seq::empty(), 0, header.spec_serialize()),
            HEADER_SIZE as int,
            data@.subrange(HEADER_SIZE as int, HEADER_SIZE + trc1 + 1),
        );
        crate::outbuf::lemma_pad_len(out.bytes(), table_base + 8 * mcount);
    }
    let mut mode_slots = AddressSet::new(MAX_MODES, CapacityError::Mode);
    let mut emitted = EmittedMap::new();
    match emit_modes(
        data,
        &ws,
        modes_start,
        mcount,
        trc1,
        &mut out,
        &mut mode_slots,
        &mut emitted,
    ) {
        Ok(_) => (),
        Err(e) => {
            return Err(e);
        },
    }
    crate::walker::write_table(&mut out, table_base, mode_slots.as_slice());
    Ok(out.into_vec())
}

/// What a read-only run reports about a compiled waveform file.
pub struct WbfReport {
    pub header: waveform_data_header,
    /// The `(from, to)` bounds of each declared temperature range.
    pub temp_ranges: Vec<(u8, u8)>,
    /// The extra-waveform-info block, where the header points at one.
    pub xwia: Option<XwiaInfo>,
    /// How many unique waveform data addresses the discovery pass found.
    pub unique_waveforms: usize,
}

/// Everything `report_wbf` validates, replayed over the mathematical
/// views, ending in the discovery pass: its value is the discovered
/// unique waveform addresses, in discovery order, or the first failure.
pub open spec fn spec_report(data: Seq<u8>) -> Result<Seq<u32>, WbfError> {
    if data.len() < HEADER_SIZE {
        Err(WbfError::Format(FormatError::TruncatedHeader))
    } else {
        let h = waveform_data_header::spec_parse(data);
        let trc1 = h.trc + 1;
        let mcount = h.mc + 1;
        if h.filesize != data.len() {
            Err(WbfError::Format(FormatError::SizeMismatch))
        } else if crc32_of(spec_zeroed(data)) != h.checksum {
            Err(WbfError::Checksum(ChecksumError::Header))
        } else if HEADER_SIZE + trc1 + 2 > data.len() {
            Err(WbfError::Format(FormatError::Truncated))
        } else if !tr_table_valid(data, HEADER_SIZE as int, trc1 as int) {
            Err(WbfError::Checksum(ChecksumError::TempRangeTable))
        } else if h.xwia != 0 && (h.xwia + 2 > data.len() || h.xwia + 2 + data[h.xwia as int]
            > data.len()) {
            Err(WbfError::Format(FormatError::Truncated))
        } else if h.xwia != 0 && !xwia_valid(data, h.xwia as int) {
            Err(WbfError::Checksum(ChecksumError::ExtraWaveformInfo))
        } else {
            spec_pass1_modes(
                data,
                spec_modes_start(data, h),
                0,
                mcount as int,
                trc1 as int,
                Seq::empty(),
            )
        }
    }
}

/// Validates a compiled waveform file and reports what a read-only run
/// shows: the parsed header, the declared temperature ranges, the
/// extra-waveform-info block if present, and how many unique waveform
/// addresses the discovery pass found. Fails with exactly the first
/// failure of the specification-level pipeline.
pub fn report_wbf(data: &[u8]) -> (r: Result<WbfReport, WbfError>)
    ensures
        match r {
            Ok(rep) => {
                &&& spec_report(data@) matches Ok(ws) && rep.unique_waveforms == ws.len()
                &&& rep.header == waveform_data_header::spec_parse(data@)
                &&& rep.temp_ranges@.len() == rep.header.trc + 1
                &&& forall|i: int|
                    0 <= i < rep.temp_ranges@.len() ==> rep.temp_ranges@[i] == (
                    data@[HEADER_SIZE + i],
                    data@[HEADER_SIZE + i + 1],
                )
                &&& rep.header.xwia != 0 ==> (rep.xwia matches Some(info) && info.text@
                    == data@.subrange(
                    rep.header.xwia + 1,
                    rep.header.xwia + 1 + data@[rep.header.xwia as int],
                ) && info.non_printables == crate::checksum::non_printable_count(info.text@))
                &&& rep.header.xwia == 0 ==> rep.xwia matches None::<XwiaInfo>
            },
            Err(e) => spec_report(data@) == Err::<Seq<u32>, _>(e),
        },
{
    let header = match waveform_data_header::__init__(data) {
        Ok(h) => h,
        Err(e) => {
            return Err(e);
        },
    };
    let dlen = data.len();
    if header.filesize as usize != dlen {
        return Err(WbfError::Format(FormatError::SizeMismatch));
    }
    match compare_checksum(data, &header) {
        Ok(_) => (),
        Err(e) => {
            return Err(e);
        },
    }
    let trc1 = header.trc as usize + 1;
    let mcount = header.mc as usize + 1;
    match parse_temp_range_table(data, HEADER_SIZE, trc1) {
        Ok(_) => (),
        Err(e) => {
            return Err(e);
        },
    }
    let mut temp_ranges: Vec<(u8, u8)> = Vec::new();
    let mut i: usize = 0;
    while i < trc1
        invariant
            0 <= i <= trc1,
            trc1 <= 256,
            HEADER_SIZE + trc1 + 2 <= data@.len(),
            temp_ranges@.len() == i,
            forall|j: int|
                0 <= j < i ==> temp_ranges@[j] == (data@[HEADER_SIZE + j], data@[HEADER_SIZE + j + 1]),
        decreases trc1 - i,
    {
        let pair = crate::packed::temp_range(data, HEADER_SIZE + i);
        temp_ranges.push(pair);
        i = i + 1;
    }
    let xwia_len: usize;
    let xwia: Option<XwiaInfo>;
    if header.xwia != 0 {
        match check_xwia(data, header.xwia as usize) {
            Ok(info) => {
                xwia_len = data[header.xwia as usize] as usize;
                xwia = Some(info);
            },
            Err(e) => {
                return Err(e);
            },
        }
    } else {
        xwia_len = 0;
        xwia = None;
    }
    let modes_start: usize = if header.xwia != 0 {
        header.xwia as usize + 2 + xwia_len
    } else {
        2
    };
    let ws = match discover_addresses(data, modes_start, mcount, trc1) {
        Ok(s) => s,
        Err(e) => {
            return Err(e);
        },
    };
    let unique_waveforms = ws.len();
    Ok(WbfReport { header, temp_ranges, xwia, unique_waveforms })
}

/// A copy of `n` input bytes starting at `off`.
fn copy_region(data: &[u8], off: usize, n: usize) -> (r: Vec<u8>)
    requires
        off + n <= data@.len(),
    ensures
        r@ == data@.subrange(off as int, off + n),
{
    let dlen = data.len();
    let mut v: Vec<u8> = Vec::new();
    let mut i: usize = 0;
    while i < n
        invariant
            0 <= i <= n,
            off + n <= dlen,
            dlen == data@.len(),
            v@ == data@.subrange(off as int, off + i),
        decreases n - i,
    {
        v.push(data[off + i]);
        proof {
            assert(v@ =~= data@.subrange(off as int, off + i + 1));
        }
        i = i + 1;
    }
    v
}

} // verus!
