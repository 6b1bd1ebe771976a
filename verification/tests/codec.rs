use inkwave::addrset::{AddOutcome, AddressSet};
use inkwave::errors::{CapacityError, ChecksumError, WbfError};
use inkwave::header::{get_bits_per_pixel, waveform_data_header, HEADER_SIZE};
use inkwave::packed::{packed_state, temp_range, toS};
use inkwave::pointer::pointer;
use inkwave::waveform::parse_waveform;
use inkwave::{MAX_MODES, MAX_WAVEFORMS};

fn sample_header_bytes() -> Vec<u8> {
    let mut b: Vec<u8> = (0..HEADER_SIZE as u8).map(|i| i.wrapping_mul(7).wrapping_add(13)).collect();
    // give the split fields distinctive parts
    b[28] = 0x34; // xwia low
    b[29] = 0x12;
    b[30] = 0x05; // xwia high
    b[32] = 0x78; // wmta low
    b[33] = 0x56;
    b[34] = 0x09; // wmta high
    b
}

#[test]
fn header_parse_reads_fields() {
    let b = sample_header_bytes();
    let h = waveform_data_header::__init__(&b).unwrap();
    assert_eq!(
        h.checksum,
        u32::from_le_bytes([b[0], b[1], b[2], b[3]])
    );
    assert_eq!(h.filesize, u32::from_le_bytes([b[4], b[5], b[6], b[7]]));
    assert_eq!(h.serial, u32::from_le_bytes([b[8], b[9], b[10], b[11]]));
    assert_eq!(h.run_type, b[12]);
    assert_eq!(h.fpl_platform, b[13]);
    assert_eq!(h.fpl_lot, u16::from_le_bytes([b[14], b[15]]));
    assert_eq!(h.xwia, 0x05_1234);
    assert_eq!(h.cs1, b[31]);
    assert_eq!(h.wmta, 0x09_5678);
    assert_eq!(h.mc, b[37]);
    assert_eq!(h.trc, b[38]);
    assert_eq!(h.cs2, b[47]);
}

#[test]
fn header_round_trip_is_exact() {
    let mut b = sample_header_bytes();
    b.extend_from_slice(&[0xAA, 0xBB, 0xCC]); // trailing bytes are not the header's
    let h = waveform_data_header::__init__(&b).unwrap();
    let again = h.__bytes__();
    assert_eq!(&again[..], &b[..HEADER_SIZE]);
}

#[test]
fn header_too_short_is_truncated() {
    let b = vec![0u8; HEADER_SIZE - 1];
    assert_eq!(
        waveform_data_header::__init__(&b),
        Err(WbfError::Format(inkwave::errors::FormatError::TruncatedHeader))
    );
}

#[test]
fn bits_per_pixel_follows_luts() {
    let mut b = sample_header_bytes();
    b[36] = 0; // luts
    let h = waveform_data_header::__init__(&b).unwrap();
    assert_eq!(get_bits_per_pixel(&h), 4);
    b[36] = 4;
    let h5 = waveform_data_header::__init__(&b).unwrap();
    assert_eq!(get_bits_per_pixel(&h5), 5);
}

#[test]
fn pointer_parses_and_validates() {
    let b = [0x34u8, 0x12, 0x07, (0x34u8 + 0x12 + 0x07)];
    let p = pointer::__init__(&b, 0);
    assert_eq!(p.addr, 0x07_1234);
    assert_eq!(p.checksum, b[3]);
    let ok = pointer::parse(&b, 0).unwrap();
    assert_eq!(ok.addr, 0x07_1234);
}

#[test]
fn pointer_checksum_catches_every_single_byte_corruption() {
    let base = [10u8, 20, 30, 60];
    assert!(pointer::parse(&base, 0).is_ok());
    for pos in 0..4 {
        let mut bad = base;
        bad[pos] = bad[pos].wrapping_add(1);
        assert_eq!(
            pointer::parse(&bad, 0),
            Err(WbfError::Checksum(ChecksumError::Pointer)),
            "corruption at byte {} must fail",
            pos
        );
    }
}

#[test]
fn pointer_checksum_wraps_modulo_256() {
    let b = [200u8, 100, 9, ((200u32 + 100 + 9) % 256) as u8];
    assert!(pointer::parse(&b, 0).is_ok());
}

#[test]
fn packed_state_splits_two_bit_fields() {
    let s = packed_state::__init__(0b00011011);
    assert_eq!((s.s0, s.s1, s.s2, s.s3), (3, 2, 1, 0));
    let t = packed_state::__init__(0b11110000);
    assert_eq!((t.s0, t.s1, t.s2, t.s3), (0, 0, 3, 3));
}

#[test]
fn temp_range_reads_adjacent_bounds() {
    let table = [10u8, 20, 30, 40];
    assert_eq!(temp_range(&table, 0), (10, 20));
    assert_eq!(temp_range(&table, 2), (30, 40));
}

#[test]
fn to_s_removes_high_bit_bias() {
    assert_eq!(toS(200), 72);
    assert_eq!(toS(5), 5);
    assert_eq!(toS(128), 0);
}

#[test]
fn waveform_decoder_expands_fixture() {
    // A stored-count-2 run, a fast-change toggle, one fast-change state,
    // a toggle back, then a stored-count-3 run; a stored count byte
    // means "count byte + 1" repetitions.
    let w = [0b00011011u8, 2, 0xFC, 0b01010101, 0xFC, 0b11110000, 3];
    let (expanded, state_count) = parse_waveform(&w, 0, w.len());
    let mut expect: Vec<u8> = Vec::new();
    for _ in 0..3 {
        expect.extend_from_slice(&[3, 2, 1, 0]);
    }
    expect.extend_from_slice(&[1, 1, 1, 1]);
    for _ in 0..4 {
        expect.extend_from_slice(&[0, 0, 3, 3]);
    }
    assert_eq!(expanded, expect);
    assert_eq!(state_count, 32);
}

#[test]
fn waveform_decoder_defaults_missing_count_to_one() {
    // A state byte with no count byte left expands exactly once.
    let w = [0x1B_u8, 0, 0x2A];
    let (expanded, state_count) = parse_waveform(&w, 0, w.len());
    assert_eq!(expanded, vec![3, 2, 1, 0, 2, 2, 2, 0]);
    assert_eq!(state_count, 8);
}

#[test]
fn address_set_deduplicates() {
    let mut s = AddressSet::new(MAX_WAVEFORMS, CapacityError::Waveform);
    assert_eq!(s.add_addr(100).unwrap(), AddOutcome::NewlyAdded);
    assert_eq!(s.add_addr(100).unwrap(), AddOutcome::AlreadyKnown);
    assert_eq!(s.len(), 1);
    assert_eq!(s.add_addr(200).unwrap(), AddOutcome::NewlyAdded);
    assert_eq!(s.len(), 2);
}

#[test]
fn address_set_overflow_fails_with_capacity_error() {
    let mut s = AddressSet::new(MAX_MODES, CapacityError::Mode);
    for k in 0..MAX_MODES as u32 {
        assert_eq!(s.add_addr(1000 + k).unwrap(), AddOutcome::NewlyAdded);
    }
    assert_eq!(
        s.add_addr(999_999),
        Err(WbfError::Capacity(CapacityError::Mode))
    );
    // a known address still answers without growing
    assert_eq!(s.add_addr(1000).unwrap(), AddOutcome::AlreadyKnown);
    assert_eq!(s.len(), MAX_MODES);
}

#[test]
fn address_set_length_of_uses_next_entry() {
    let mut s = AddressSet::new(MAX_WAVEFORMS, CapacityError::Waveform);
    for a in [10u32, 20, 35, 50] {
        s.add_addr(a).unwrap();
    }
    assert_eq!(s.get_waveform_length(10), Some(10));
    assert_eq!(s.get_waveform_length(20), Some(15));
    assert_eq!(s.get_waveform_length(35), Some(15));
    assert_eq!(s.get_waveform_length(50), None); // last entry: nothing after it
    assert_eq!(s.get_waveform_length(11), None); // absent
}
