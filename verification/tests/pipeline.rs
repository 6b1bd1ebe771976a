use inkwave::convert::{convert_wbf, report_wbf};
use inkwave::errors::{CapacityError, ChecksumError, FormatError, WbfError};

fn ptr_bytes(addr: u32) -> [u8; 4] {
    let b0 = (addr & 0xFF) as u8;
    let b1 = ((addr >> 8) & 0xFF) as u8;
    let b2 = ((addr >> 16) & 0xFF) as u8;
    let cks = ((b0 as u32 + b1 as u32 + b2 as u32) % 256) as u8;
    [b0, b1, b2, cks]
}

/// Recomputes the whole-file checksum: the CRC-32 of the file with its
/// first four bytes zeroed, stored little-endian at the front.
fn seal_crc(file: &mut [u8]) {
    file[0] = 0;
    file[1] = 0;
    file[2] = 0;
    file[3] = 0;
    let c = crc32fast::hash(file);
    file[0..4].copy_from_slice(&c.to_le_bytes());
}

/// A minimal well-formed file: 2 modes sharing 1 temperature range each,
/// both referencing the same single 8-byte waveform at offset 72.
fn base_fixture() -> Vec<u8> {
    let mut f = vec![0u8; 80];
    f[4..8].copy_from_slice(&80u32.to_le_bytes()); // filesize
    f[8..12].copy_from_slice(&7u32.to_le_bytes()); // serial
    f[28] = 51; // xwia low
    f[37] = 1; // mc: 2 modes
    f[38] = 0; // trc: 1 temperature range
    // temperature range boundary table and its checksum
    f[48] = 20;
    f[49] = 30;
    f[50] = 50;
    // extra waveform info: "abc"
    f[51] = 3;
    f[52..55].copy_from_slice(b"abc");
    f[55] = ((3u32 + 97 + 98 + 99) % 256) as u8;
    // mode table at 56: two modes
    f[56..60].copy_from_slice(&ptr_bytes(64));
    f[60..64].copy_from_slice(&ptr_bytes(68));
    // one-range temperature tables, both referencing the waveform at 72
    f[64..68].copy_from_slice(&ptr_bytes(72));
    f[68..72].copy_from_slice(&ptr_bytes(72));
    // the waveform: 6 content bytes and a 2-byte trailer
    f[72..80].copy_from_slice(&[0x1B, 2, 0xFC, 0x55, 0xFC, 0xF0, 0, 0]);
    seal_crc(&mut f);
    f
}

#[test]
fn report_reads_the_fixture() {
    let f = base_fixture();
    let rep = report_wbf(&f).unwrap();
    assert_eq!(rep.header.filesize, 80);
    assert_eq!(rep.header.serial, 7);
    assert_eq!(rep.header.mc, 1);
    assert_eq!(rep.header.trc, 0);
    assert_eq!(rep.header.xwia, 51);
    assert_eq!(rep.temp_ranges, vec![(20, 30)]);
    let xwia = rep.xwia.unwrap();
    assert_eq!(xwia.text, b"abc".to_vec());
    assert_eq!(xwia.non_printables, 0);
    // the shared waveform is discovered exactly once
    assert_eq!(rep.unique_waveforms, 1);
}

fn expanded_fixture_waveform() -> Vec<u8> {
    let mut wav: Vec<u8> = Vec::new();
    for _ in 0..3 {
        wav.extend_from_slice(&[3, 2, 1, 0]);
    }
    wav.extend_from_slice(&[1, 1, 1, 1]);
    // the final payload byte has no count byte left: one expansion
    wav.extend_from_slice(&[0, 0, 3, 3]);
    wav
}

#[test]
fn convert_expands_the_shared_waveform_once() {
    let f = base_fixture();
    let out = convert_wbf(&f).unwrap();
    let mut exp = vec![0u8; 110];
    // header, byte for byte
    exp[..48].copy_from_slice(&f[..48]);
    // temperature range boundary table
    exp[48..50].copy_from_slice(&f[48..50]);
    // mode table: two slots, both patched
    exp[50..54].copy_from_slice(&[3, 0, 0, 0]);
    exp[58..62].copy_from_slice(&[39, 0, 0, 0]);
    // first mode's temperature-range table: one slot
    exp[66..70].copy_from_slice(&[11, 0, 0, 0]);
    // the waveform's 8-byte slot: decoded state count, big-endian
    exp[74..76].copy_from_slice(&[0, 20]);
    // the expanded waveform, present exactly once
    exp[82..102].copy_from_slice(&expanded_fixture_waveform());
    // second mode's temperature-range table references the same slot:
    // the same decoded length serves both table entries
    exp[102..106].copy_from_slice(&[11, 0, 0, 0]);
    assert_eq!(out, exp);
}

#[test]
fn shared_waveform_within_one_mode_patches_every_slot() {
    // 2 modes x 2 ranges, all four references to one waveform: each
    // range keeps its own table slot, repeats included, and every slot
    // carries the shared waveform's entry.
    let mut f = vec![0u8; 89];
    f[4..8].copy_from_slice(&89u32.to_le_bytes());
    f[28] = 52; // xwia low
    f[37] = 1; // mc: 2 modes
    f[38] = 1; // trc: 2 temperature ranges
    f[48] = 10;
    f[49] = 20;
    f[50] = 30;
    f[51] = 60; // boundary checksum
    f[52] = 3;
    f[53..56].copy_from_slice(b"abc");
    f[56] = ((3u32 + 97 + 98 + 99) % 256) as u8;
    // mode table at 57
    f[57..61].copy_from_slice(&ptr_bytes(65));
    f[61..65].copy_from_slice(&ptr_bytes(73));
    // both temperature-range tables reference the waveform at 81 twice
    f[65..69].copy_from_slice(&ptr_bytes(81));
    f[69..73].copy_from_slice(&ptr_bytes(81));
    f[73..77].copy_from_slice(&ptr_bytes(81));
    f[77..81].copy_from_slice(&ptr_bytes(81));
    f[81..89].copy_from_slice(&[0x1B, 2, 0xFC, 0x55, 0xFC, 0xF0, 0, 0]);
    seal_crc(&mut f);
    assert_eq!(report_wbf(&f).unwrap().unique_waveforms, 1);
    let out = convert_wbf(&f).unwrap();
    let mut exp = vec![0u8; 127];
    exp[..48].copy_from_slice(&f[..48]);
    exp[48..51].copy_from_slice(&f[48..51]);
    // mode table
    exp[51..55].copy_from_slice(&[4, 0, 0, 0]);
    exp[59..63].copy_from_slice(&[48, 0, 0, 0]);
    // first mode's table: both range slots patched with the same entry
    exp[67..71].copy_from_slice(&[20, 0, 0, 0]);
    exp[75..79].copy_from_slice(&[20, 0, 0, 0]);
    // the one waveform slot and its expansion
    exp[83..85].copy_from_slice(&[0, 20]);
    exp[91..111].copy_from_slice(&expanded_fixture_waveform());
    // second mode's table: the same two entries again
    exp[111..115].copy_from_slice(&[20, 0, 0, 0]);
    exp[119..123].copy_from_slice(&[20, 0, 0, 0]);
    assert_eq!(out, exp);
}

#[test]
fn empty_input_is_a_truncated_header() {
    assert!(matches!(
        report_wbf(&[]),
        Err(WbfError::Format(FormatError::TruncatedHeader))
    ));
    assert_eq!(
        convert_wbf(&[]),
        Err(WbfError::Format(FormatError::TruncatedHeader))
    );
}

#[test]
fn converted_output_carries_the_same_header() {
    let f = base_fixture();
    let out = convert_wbf(&f).unwrap();
    let h_in = inkwave::header::waveform_data_header::__init__(&f).unwrap();
    let h_out = inkwave::header::waveform_data_header::__init__(&out).unwrap();
    assert_eq!(h_in, h_out);
}

#[test]
fn crc32_known_answer() {
    assert_eq!(crc32fast::hash(b"123456789"), 0xCBF43926);
}

#[test]
fn flipping_any_byte_breaks_the_whole_file_checksum() {
    let f = base_fixture();
    assert!(report_wbf(&f).is_ok());
    for pos in 0..f.len() {
        let mut bad = f.clone();
        bad[pos] ^= 0x5A;
        let r = report_wbf(&bad);
        if (4..8).contains(&pos) {
            // the declared file size no longer matches, which is
            // detected before the checksum
            assert!(matches!(r, Err(WbfError::Format(FormatError::SizeMismatch))));
        } else {
            assert!(
                matches!(r, Err(WbfError::Checksum(ChecksumError::Header))),
                "flip at {} must fail the whole-file checksum",
                pos
            );
        }
    }
}

#[test]
fn size_mismatch_is_detected() {
    let mut f = base_fixture();
    f.push(0);
    assert_eq!(
        convert_wbf(&f),
        Err(WbfError::Format(FormatError::SizeMismatch))
    );
}

#[test]
fn five_bit_waveforms_are_rejected_on_conversion_only() {
    let mut f = base_fixture();
    f[36] = 4; // luts flags select five bits per pixel
    seal_crc(&mut f);
    assert_eq!(
        convert_wbf(&f),
        Err(WbfError::Format(FormatError::Unsupported5Bit))
    );
    // a read-only report still works
    assert!(report_wbf(&f).is_ok());
}

#[test]
fn temp_range_table_checksum_is_validated() {
    let mut f = base_fixture();
    f[50] = 51;
    seal_crc(&mut f);
    assert_eq!(
        convert_wbf(&f),
        Err(WbfError::Checksum(ChecksumError::TempRangeTable))
    );
}

#[test]
fn xwia_checksum_is_validated() {
    let mut f = base_fixture();
    f[55] = 0;
    seal_crc(&mut f);
    assert_eq!(
        convert_wbf(&f),
        Err(WbfError::Checksum(ChecksumError::ExtraWaveformInfo))
    );
}

#[test]
fn corrupt_mode_pointer_aborts_the_walk() {
    let mut f = base_fixture();
    f[59] = f[59].wrapping_add(1);
    seal_crc(&mut f);
    assert_eq!(
        convert_wbf(&f),
        Err(WbfError::Checksum(ChecksumError::Pointer))
    );
}

#[test]
fn corrupt_temp_range_pointer_aborts_the_walk() {
    let mut f = base_fixture();
    f[71] = f[71].wrapping_add(1);
    seal_crc(&mut f);
    assert_eq!(
        convert_wbf(&f),
        Err(WbfError::Checksum(ChecksumError::Pointer))
    );
}

#[test]
fn waveform_at_file_end_has_no_length() {
    let mut f = base_fixture();
    // both ranges point at the end of the file: the discovered address
    // equals the sentinel, so no span can be derived for it
    f[64..68].copy_from_slice(&ptr_bytes(80));
    f[68..72].copy_from_slice(&ptr_bytes(80));
    seal_crc(&mut f);
    assert_eq!(
        convert_wbf(&f),
        Err(WbfError::Format(FormatError::UnknownWaveformLength))
    );
}

#[test]
fn pointer_target_outside_the_file_is_truncated() {
    let mut f = base_fixture();
    f[56..60].copy_from_slice(&ptr_bytes(0x10_0000));
    seal_crc(&mut f);
    assert_eq!(
        convert_wbf(&f),
        Err(WbfError::Format(FormatError::Truncated))
    );
}

#[test]
fn too_many_unique_waveforms_fail_with_capacity_error() {
    // 17 modes x 256 ranges, every pointer to a distinct address: more
    // unique waveform addresses than the hard maximum
    let mcount: usize = 17;
    let trc1: usize = 256;
    let modes_start: usize = 308;
    let tr_tables: usize = 376;
    let total: usize = tr_tables + mcount * trc1 * 4;
    let mut f = vec![0u8; total];
    f[4..8].copy_from_slice(&(total as u32).to_le_bytes());
    f[28..30].copy_from_slice(&306u16.to_le_bytes()); // xwia low
    f[37] = (mcount - 1) as u8;
    f[38] = (trc1 - 1) as u8;
    // boundary table: 257 zero bytes sum to a zero checksum at 305
    // xwia at 306: zero length, zero checksum
    for m in 0..mcount {
        let mode_off = modes_start + 4 * m;
        let tr_base = (tr_tables + m * trc1 * 4) as u32;
        f[mode_off..mode_off + 4].copy_from_slice(&ptr_bytes(tr_base));
        for r in 0..trc1 {
            let off = tr_base as usize + 4 * r;
            let addr = 20000 + (m * trc1 + r) as u32;
            f[off..off + 4].copy_from_slice(&ptr_bytes(addr));
        }
    }
    seal_crc(&mut f);
    let r = convert_wbf(&f);
    assert_eq!(r, Err(WbfError::Capacity(CapacityError::Waveform)));
    assert!(r.is_err(), "no output may exist for an overflowing fixture");
}
