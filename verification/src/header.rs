//! Codec for the fixed-layout file header: 48 bytes of little-endian
//! fields, among them two 24-bit addresses each split into a 16-bit low
//! part and an 8-bit high part.

use vstd::prelude::*;

use crate::bytes::{
    byte_of, combine24, hi8, le16, le32, lemma_combine24_split, lemma_le16_split, lemma_le32_split,
    lo8, read_u16, read_u32,
};
use crate::errors::{FormatError, WbfError};

verus! {

/// Byte length of the serialized header.
pub const HEADER_SIZE: usize = 48;

/// The fixed file header. The split address fields `xwia` (extra waveform
/// info, 0 = absent) and `wmta` are stored recombined as 24-bit values.
#[allow(non_camel_case_types)]
#[derive(Clone, Copy, Debug, PartialEq, Eq, Structural)]
pub struct waveform_data_header {
    pub checksum: u32,
    pub filesize: u32,
    pub serial: u32,
    pub run_type: u8,
    pub fpl_platform: u8,
    pub fpl_lot: u16,
    pub mode_version_or_adhesive_run_num: u8,
    pub waveform_version: u8,
    pub waveform_subversion: u8,
    pub waveform_type: u8,
    pub fpl_size: u8,
    pub mfg_code: u8,
    pub waveform_tuning_bias_or_rev: u8,
    pub fpl_rate: u8,
    pub unknown0: u8,
    pub vcom_shifted: u8,
    pub unknown1: u16,
    pub xwia: u32,
    pub cs1: u8,
    pub wmta: u32,
    pub fvsn: u8,
    pub luts: u8,
    pub mc: u8,
    pub trc: u8,
    pub advanced_wfm_flags: u8,
    pub eb: u8,
    pub sb: u8,
    pub reserved0_1: u8,
    pub reserved0_2: u8,
    pub reserved0_3: u8,
    pub reserved0_4: u8,
    pub reserved0_5: u8,
    pub cs2: u8,
}

impl waveform_data_header {
    /// The two recombined address fields fit in 24 bits; every parsed
    /// header satisfies this, and serialization depends on it.
    pub open spec fn wf(self) -> bool {
        self.xwia < 16777216 && self.wmta < 16777216
    }

    /// The header described by the first 48 bytes of `b`.
    pub open spec fn spec_parse(b: Seq<u8>) -> waveform_data_header {
        waveform_data_header {
            checksum: le32(b, 0) as u32,
            filesize: le32(b, 4) as u32,
            serial: le32(b, 8) as u32,
            run_type: b[12],
            fpl_platform: b[13],
            fpl_lot: le16(b, 14) as u16,
            mode_version_or_adhesive_run_num: b[16],
            waveform_version: b[17],
            waveform_subversion: b[18],
            waveform_type: b[19],
            fpl_size: b[20],
            mfg_code: b[21],
            waveform_tuning_bias_or_rev: b[22],
            fpl_rate: b[23],
            unknown0: b[24],
            vcom_shifted: b[25],
            unknown1: le16(b, 26) as u16,
            xwia: combine24(le16(b, 28) as u16, b[30]),
            cs1: b[31],
            wmta: combine24(le16(b, 32) as u16, b[34]),
            fvsn: b[35],
            luts: b[36],
            mc: b[37],
            trc: b[38],
            advanced_wfm_flags: b[39],
            eb: b[40],
            sb: b[41],
            reserved0_1: b[42],
            reserved0_2: b[43],
            reserved0_3: b[44],
            reserved0_4: b[45],
            reserved0_5: b[46],
            cs2: b[47],
        }
    }

    /// The 48 bytes that serializing this header produces: the exact
    /// inverse of parsing, with each 24-bit address split again.
    pub open spec fn spec_serialize(self) -> Seq<u8> {
        seq![
            byte_of(self.checksum, 0),
            byte_of(self.checksum, 1),
            byte_of(self.checksum, 2),
            byte_of(self.checksum, 3),
            byte_of(self.filesize, 0),
            byte_of(self.filesize, 1),
            byte_of(self.filesize, 2),
            byte_of(self.filesize, 3),
            byte_of(self.serial, 0),
            byte_of(self.serial, 1),
            byte_of(self.serial, 2),
            byte_of(self.serial, 3),
            self.run_type,
            self.fpl_platform,
            lo8(self.fpl_lot),
            hi8(self.fpl_lot),
            self.mode_version_or_adhesive_run_num,
            self.waveform_version,
            self.waveform_subversion,
            self.waveform_type,
            self.fpl_size,
            self.mfg_code,
            self.waveform_tuning_bias_or_rev,
            self.fpl_rate,
            self.unknown0,
            self.vcom_shifted,
            lo8(self.unknown1),
            hi8(self.unknown1),
            lo8((self.xwia % 65536) as u16),
            hi8((self.xwia % 65536) as u16),
            (self.xwia / 65536) as u8,
            self.cs1,
            lo8((self.wmta % 65536) as u16),
            hi8((self.wmta % 65536) as u16),
            (self.wmta / 65536) as u8,
            self.fvsn,
            self.luts,
            self.mc,
            self.trc,
            self.advanced_wfm_flags,
            self.eb,
            self.sb,
            self.reserved0_1,
            self.reserved0_2,
            self.reserved0_3,
            self.reserved0_4,
            self.reserved0_5,
            self.cs2,
        ]
    }

    /// Parses the header from the start of `data`.
    ///
    /// Succeeds exactly when 48 bytes are available; the failure is
    /// `FormatError::TruncatedHeader`.
    pub fn __init__(data: &[u8]) -> (r: Result<waveform_data_header, WbfError>)
        ensures
            data@.len() >= HEADER_SIZE ==> r == Ok::<_, WbfError>(Self::spec_parse(data@)),
            data@.len() < HEADER_SIZE ==> r == Err::<waveform_data_header, _>(
                WbfError::Format(FormatError::TruncatedHeader),
            ),
            r matches Ok(h) ==> h.wf(),
    {
        if data.len() < HEADER_SIZE {
            return Err(WbfError::Format(FormatError::TruncatedHeader));
        }
        let xwia_lo = read_u16(data, 28);
        let xwia_hi = data[30];
        let wmta_lo = read_u16(data, 32);
        let wmta_hi = data[34];
        let h = waveform_data_header {
            checksum: read_u32(data, 0),
            filesize: read_u32(data, 4),
            serial: read_u32(data, 8),
            run_type: data[12],
            fpl_platform: data[13],
            fpl_lot: read_u16(data, 14),
            mode_version_or_adhesive_run_num: data[16],
            waveform_version: data[17],
            waveform_subversion: data[18],
            waveform_type: data[19],
            fpl_size: data[20],
            mfg_code: data[21],
            waveform_tuning_bias_or_rev: data[22],
            fpl_rate: data[23],
            unknown0: data[24],
            vcom_shifted: data[25],
            unknown1: read_u16(data, 26),
            xwia: (xwia_lo as u32) + 65536 * (xwia_hi as u32),
            cs1: data[31],
            wmta: (wmta_lo as u32) + 65536 * (wmta_hi as u32),
            fvsn: data[35],
            luts: data[36],
            mc: data[37],
            trc: data[38],
            advanced_wfm_flags: data[39],
            eb: data[40],
            sb: data[41],
            reserved0_1: data[42],
            reserved0_2: data[43],
            reserved0_3: data[44],
            reserved0_4: data[45],
            reserved0_5: data[46],
            cs2: data[47],
        };
        proof {
            lemma_combine24_split(xwia_lo, xwia_hi);
            lemma_combine24_split(wmta_lo, wmta_hi);
        }
        Ok(h)
    }

    /// Serializes the header back into its 48-byte form.
    pub fn __bytes__(&self) -> (r: Vec<u8>)
        requires
            self.wf(),
        ensures
            r@ == self.spec_serialize(),
            r@.len() == HEADER_SIZE,
    {
        let mut out: Vec<u8> = Vec::new();
        push_u32(&mut out, self.checksum);
        push_u32(&mut out, self.filesize);
        push_u32(&mut out, self.serial);
        out.push(self.run_type);
        out.push(self.fpl_platform);
        push_u16(&mut out, self.fpl_lot);
        out.push(self.mode_version_or_adhesive_run_num);
        out.push(self.waveform_version);
        out.push(self.waveform_subversion);
        out.push(self.waveform_type);
        out.push(self.fpl_size);
        out.push(self.mfg_code);
        out.push(self.waveform_tuning_bias_or_rev);
        out.push(self.fpl_rate);
        out.push(self.unknown0);
        out.push(self.vcom_shifted);
        push_u16(&mut out, self.unknown1);
        push_u16(&mut out, (self.xwia % 65536) as u16);
        out.push((self.xwia / 65536) as u8);
        out.push(self.cs1);
        push_u16(&mut out, (self.wmta % 65536) as u16);
        out.push((self.wmta / 65536) as u8);
        out.push(self.fvsn);
        out.push(self.luts);
        out.push(self.mc);
        out.push(self.trc);
        out.push(self.advanced_wfm_flags);
        out.push(self.eb);
        out.push(self.sb);
        out.push(self.reserved0_1);
        out.push(self.reserved0_2);
        out.push(self.reserved0_3);
        out.push(self.reserved0_4);
        out.push(self.reserved0_5);
        out.push(self.cs2);
        proof {
            assert(out@ =~= self.spec_serialize());
        }
        out
    }
}

/// The number of bits each pixel's state occupies in this file: five when
/// the `luts` flags select the unsupported variant, else four.
pub fn get_bits_per_pixel(header: &waveform_data_header) -> (r: u8)
    ensures
        r == (if header.luts & 12 == 4 {
            5u8
        } else {
            4u8
        }),
{
    if header.luts & 12 == 4 {
        5
    } else {
        4
    }
}

fn push_u16(out: &mut Vec<u8>, x: u16)
    ensures
        final(out)@ == old(out)@ + seq![lo8(x), hi8(x)],
{
    out.push((x % 256) as u8);
    out.push((x / 256) as u8);
}

fn push_u32(out: &mut Vec<u8>, x: u32)
    ensures
        final(out)@ == old(out)@ + seq![byte_of(x, 0), byte_of(x, 1), byte_of(x, 2), byte_of(x, 3)],
{
    out.push((x % 256) as u8);
    out.push(((x / 256) % 256) as u8);
    out.push(((x / 65536) % 256) as u8);
    out.push((x / 16777216) as u8);
    proof {
        assert(out@ =~= old(out)@ + seq![byte_of(x, 0), byte_of(x, 1), byte_of(x, 2), byte_of(
            x,
            3,
        )]);
    }
}

/// Parsing then serializing reproduces the original 48 header bytes
/// exactly: the codec loses nothing.
pub proof fn lemma_header_round_trip(b: Seq<u8>)
    requires
        b.len() >= HEADER_SIZE,
    ensures
        waveform_data_header::spec_parse(b).spec_serialize() == b.subrange(0, HEADER_SIZE as int),
{
    let h = waveform_data_header::spec_parse(b);
    lemma_le32_split(b[0], b[1], b[2], b[3]);
    lemma_le32_split(b[4], b[5], b[6], b[7]);
    lemma_le32_split(b[8], b[9], b[10], b[11]);
    lemma_le16_split(b[14], b[15]);
    lemma_le16_split(b[26], b[27]);
    lemma_le16_split(b[28], b[29]);
    lemma_le16_split(b[32], b[33]);
    lemma_combine24_split(le16(b, 28) as u16, b[30]);
    lemma_combine24_split(le16(b, 32) as u16, b[34]);
    assert(h.spec_serialize() =~= b.subrange(0, HEADER_SIZE as int));
}

} // verus!
