//! Decoder and converter for the compiled e-ink waveform container format:
//! a fixed binary header, checksummed pointer tables addressed per
//! (display mode, temperature range) pair, and run-length-encoded packed
//! display states, expanded on conversion into a sibling container with
//! rewritten address tables.

use vstd::prelude::*;

pub mod addrset;
pub mod bytes;
pub mod checksum;
pub mod convert;
pub mod desc;
pub mod errors;
pub mod header;
pub mod outbuf;
pub mod packed;
pub mod pointer;
pub mod walker;
pub mod waveform;

verus! {

/// Hard maximum of unique waveform data addresses a file may reference.
pub const MAX_WAVEFORMS: usize = 4096;

/// Hard maximum of output mode table slots.
pub const MAX_MODES: usize = 256;

/// Hard maximum of output temperature-range table slots. A mode's table
/// holds one slot per declared range, and the declared count never
/// exceeds this bound.
pub const MAX_TEMP_RANGES: usize = 256;

/// Fixed difference between an output cursor position and the address
/// recorded for it in the output mode/temperature-range tables.
pub const MYSTERIOUS_OFFSET: usize = 63;

} // verus!
