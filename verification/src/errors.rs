//! Error taxonomy of the library. Every failure is terminal for the current
//! file: no component retries or partially recovers.

use vstd::prelude::*;

verus! {

/// A structural fault in the input bytes.
#[derive(Clone, Copy, Debug, PartialEq, Eq, Structural)]
pub enum FormatError {
    /// Fewer bytes than the fixed header length were available.
    TruncatedHeader,
    /// The header's declared file size does not equal the input length.
    SizeMismatch,
    /// The file stores five bits per pixel, which conversion does not support.
    Unsupported5Bit,
    /// A waveform's byte span could not be derived from the address table.
    UnknownWaveformLength,
    /// A pointer table, pointer target or waveform lies outside the input,
    /// or the declared counts leave no room for an output table slot.
    Truncated,
}

/// A stored checksum that does not match the recomputed one.
#[derive(Clone, Copy, Debug, PartialEq, Eq, Structural)]
pub enum ChecksumError {
    /// The whole-file checksum stored in the header.
    Header,
    /// The per-entry checksum of a 4-byte table pointer.
    Pointer,
    /// The trailing checksum of the temperature-range boundary table.
    TempRangeTable,
    /// The trailing checksum of the extra-waveform-info block.
    ExtraWaveformInfo,
}

/// A fixed-capacity table that would have to grow beyond its hard maximum.
#[derive(Clone, Copy, Debug, PartialEq, Eq, Structural)]
pub enum CapacityError {
    /// More unique waveform addresses than `MAX_WAVEFORMS`.
    Waveform,
    /// More output mode table slots than `MAX_MODES`.
    Mode,
    /// More output temperature-range table slots than `MAX_TEMP_RANGES`.
    /// A mode's table holds one slot per declared range, and a declared
    /// count stays within the bound, so no parsed input reaches this.
    TempRange,
}

/// Any terminal failure of parsing, validation or conversion.
#[derive(Clone, Copy, Debug, PartialEq, Eq, Structural)]
pub enum WbfError {
    Format(FormatError),
    Checksum(ChecksumError),
    Capacity(CapacityError),
}

} // verus!
