//! The two-pass traversal of the mode and temperature-range pointer
//! tables. Pass 1 walks every pointer purely to discover and deduplicate
//! the unique waveform data addresses; pass 2 re-walks the same structure
//! to expand each unique waveform once and build the output tables.
//!
//! Each pass is stated as a recursive specification that replays the walk
//! over the mathematical views, and the executable walk is proved equal
//! to it, first failure included.

use vstd::prelude::*;

use crate::addrset::{spec_add, spec_length_of, AddressSet};
use crate::errors::{CapacityError, ChecksumError, FormatError, WbfError};
use crate::outbuf::{spec_pad, spec_write, u16_be_bytes, u32_le_bytes, OutBuf};
use crate::pointer::{pointer, ptr_addr, ptr_valid};
use crate::waveform::{parse_waveform, spec_decode};
use crate::{MAX_WAVEFORMS, MYSTERIOUS_OFFSET};

verus! {

/// Pass 1 across one temperature-range table: the ranges `r .. trc1` of
/// the table at `tr_base`, inserting each waveform address into `acc`.
/// Stops at the first out-of-bounds pointer, checksum mismatch, or
/// capacity overflow.
pub open spec fn spec_pass1_ranges(
    data: Seq<u8>,
    tr_base: int,
    r: int,
    trc1: int,
    acc: Seq<u32>,
) -> Result<Seq<u32>, WbfError>
    decreases trc1 - r,
{
    if r >= trc1 {
        Ok(acc)
    } else {
        let off = tr_base + 4 * r;
        if off + 4 > data.len() {
            Err(WbfError::Format(FormatError::Truncated))
        } else if !ptr_valid(data, off) {
            Err(WbfError::Checksum(ChecksumError::Pointer))
        } else {
            match spec_add(acc, ptr_addr(data, off), MAX_WAVEFORMS as nat) {
                Some(acc2) => spec_pass1_ranges(data, tr_base, r + 1, trc1, acc2),
                None => Err(WbfError::Capacity(CapacityError::Waveform)),
            }
        }
    }
}

/// Pass 1 across the mode table: the modes `m .. mcount` of the table at
/// `ms`, following each mode pointer to its temperature-range table.
pub open spec fn spec_pass1_modes(
    data: Seq<u8>,
    ms: int,
    m: int,
    mcount: int,
    trc1: int,
    acc: Seq<u32>,
) -> Result<Seq<u32>, WbfError>
    decreases mcount - m,
{
    if m >= mcount {
        Ok(acc)
    } else {
        let off = ms + 4 * m;
        if off + 4 > data.len() {
            Err(WbfError::Format(FormatError::Truncated))
        } else if !ptr_valid(data, off) {
            Err(WbfError::Checksum(ChecksumError::Pointer))
        } else {
            match spec_pass1_ranges(data, ptr_addr(data, off) as int, 0, trc1, acc) {
                Ok(acc2) => spec_pass1_modes(data, ms, m + 1, mcount, trc1, acc2),
                Err(e) => Err(e),
            }
        }
    }
}

/// Pass 1, the discovery pass: walks all `mcount` mode pointers at
/// `modes_start`, each to a table of `trc1` temperature-range pointers,
/// validating every pointer and collecting every unique waveform address,
/// in discovery order, into one bounded set. Returns exactly what the
/// specification-level walk returns: the first pointer failure or
/// capacity overflow aborts the pass.
pub fn discover_addresses(data: &[u8], modes_start: usize, mcount: usize, trc1: usize) -> (r:
    Result<AddressSet, WbfError>)
    requires
        mcount <= 256,
        trc1 <= 256,
    ensures
        match r {
            Ok(set) => {
                &&& spec_pass1_modes(
                    data@,
                    modes_start as int,
                    0,
                    mcount as int,
                    trc1 as int,
                    Seq::empty(),
                ) == Ok::<_, WbfError>(set@)
                &&& set.wf()
                &&& set.spec_capacity() == MAX_WAVEFORMS
                &&& set.spec_kind() == CapacityError::Waveform
            },
            Err(e) => spec_pass1_modes(
                data@,
                modes_start as int,
                0,
                mcount as int,
                trc1 as int,
                Seq::empty(),
            ) == Err::<Seq<u32>, _>(e),
        },
{
    let ghost full = spec_pass1_modes(
        data@,
        modes_start as int,
        0,
        mcount as int,
        trc1 as int,
        Seq::empty(),
    );
    let dlen = data.len();
    let mut set = AddressSet::new(MAX_WAVEFORMS, CapacityError::Waveform);
    let mut m: usize = 0;
    let mut off: usize = modes_start;
    while m < mcount
        invariant
            0 <= m <= mcount,
            mcount <= 256,
            trc1 <= 256,
            dlen == data@.len(),
            off == modes_start + 4 * m,
            set.wf(),
            set.spec_capacity() == MAX_WAVEFORMS,
            set.spec_kind() == CapacityError::Waveform,
            full == spec_pass1_modes(
                data@,
                modes_start as int,
                0,
                mcount as int,
                trc1 as int,
                Seq::empty(),
            ),
            full == spec_pass1_modes(
                data@,
                modes_start as int,
                m as int,
                mcount as int,
                trc1 as int,
                set@,
            ),
        decreases mcount - m,
    {
        if dlen < 4 || off > dlen - 4 {
            return Err(WbfError::Format(FormatError::Truncated));
        }
        let mode = match pointer::parse(data, off) {
            Ok(p) => p,
            Err(e) => {
                return Err(e);
            },
        };
        let tr_base = mode.addr as usize;
        let mut rr: usize = 0;
        while rr < trc1
            invariant
                0 <= rr <= trc1,
                trc1 <= 256,
                mcount <= 256,
                dlen == data@.len(),
                tr_base < 16777216,
                set.wf(),
                set.spec_capacity() == MAX_WAVEFORMS,
                set.spec_kind() == CapacityError::Waveform,
                0 <= m < mcount,
                full == spec_pass1_modes(
                    data@,
                    modes_start as int,
                    0,
                    mcount as int,
                    trc1 as int,
                    Seq::empty(),
                ),
                full == (match spec_pass1_ranges(
                    data@,
                    tr_base as int,
                    rr as int,
                    trc1 as int,
                    set@,
                ) {
                    Ok(acc2) => spec_pass1_modes(
                        data@,
                        modes_start as int,
                        m + 1,
                        mcount as int,
                        trc1 as int,
                        acc2,
                    ),
                    Err(e) => Err(e),
                }),
            decreases trc1 - rr,
        {
            let tr_off = tr_base + 4 * rr;
            if tr_off + 4 > dlen {
                return Err(WbfError::Format(FormatError::Truncated));
            }
            let tr = match pointer::parse(data, tr_off) {
                Ok(p) => p,
                Err(e) => {
                    return Err(e);
                },
            };
            match set.add_addr(tr.addr) {
                Ok(_) => (),
                Err(e) => {
                    return Err(e);
                },
            }
            rr = rr + 1;
        }
        off = off + 4;
        m = m + 1;
    }
    Ok(set)
}

/// Whether a waveform at `addr` has been expanded into the output already.
pub open spec fn emitted_has(s: Seq<(u32, u32, u16)>, addr: u32) -> bool {
    exists|i: int| 0 <= i < s.len() && s[i].0 == addr
}

/// The output table slot entry and decoded state count recorded when the
/// waveform at `addr` was expanded.
pub open spec fn emitted_get(s: Seq<(u32, u32, u16)>, addr: u32) -> (u32, u16) {
    let i = choose|i: int| 0 <= i < s.len() && s[i].0 == addr;
    (s[i].1, s[i].2)
}

/// The waveforms already expanded into the output, each with the slot
/// entry that references it and its decoded state count: what lets the
/// emission pass expand each unique waveform exactly once and reuse the
/// previously decoded length for every later reference.
pub struct EmittedMap {
    items: Vec<(u32, u32, u16)>,
}

impl View for EmittedMap {
    type V = Seq<(u32, u32, u16)>;

    closed spec fn view(&self) -> Seq<(u32, u32, u16)> {
        self.items@
    }
}

impl EmittedMap {
    /// No waveform address is recorded twice.
    pub closed spec fn wf(self) -> bool {
        forall|p: int, q: int| 0 <= p < q < self@.len() ==> self@[p].0 != self@[q].0
    }

    pub fn new() -> (r: EmittedMap)
        ensures
            r@ == Seq::<(u32, u32, u16)>::empty(),
            r.wf(),
    {
        EmittedMap { items: Vec::new() }
    }

    /// The slot entry and state count recorded for `addr`, if any.
    pub fn find(&self, addr: u32) -> (r: Option<(u32, u16)>)
        requires
            self.wf(),
        ensures
            r == (if emitted_has(self@, addr) {
                Some(emitted_get(self@, addr))
            } else {
                None::<(u32, u16)>
            }),
    {
        let n = self.items.len();
        let mut i: usize = 0;
        while i < n
            invariant
                0 <= i <= n,
                n == self@.len(),
                self.wf(),
                forall|j: int| 0 <= j < i ==> self@[j].0 != addr,
            decreases n - i,
        {
            let item = self.items[i];
            if item.0 == addr {
                proof {
                    assert(emitted_has(self@, addr));
                    let k = choose|k: int| 0 <= k < self@.len() && self@[k].0 == addr;
                    assert(k == i);
                }
                return Some((item.1, item.2));
            }
            i = i + 1;
        }
        assert(!emitted_has(self@, addr));
        None
    }

    /// Records a waveform that was just expanded.
    pub fn push_new(&mut self, addr: u32, entry: u32, count: u16)
        requires
            old(self).wf(),
            !emitted_has(old(self)@, addr),
        ensures
            final(self).wf(),
            final(self)@ == old(self)@.push((addr, entry, count)),
    {
        self.items.push((addr, entry, count));
    }
}

/// The emission pass's state: the output bytes and cursor, the output
/// mode table slots gathered so far, and the waveforms already expanded.
pub struct EmitState {
    pub out: Seq<u8>,
    pub pos: int,
    pub mode_slots: Seq<u32>,
    pub emitted: Seq<(u32, u32, u16)>,
}

/// The emission state that a buffer, mode slot set and emitted map hold.
pub open spec fn st_of(out: OutBuf, mode_slots: AddressSet, emitted: EmittedMap) -> EmitState {
    EmitState { out: out.bytes(), pos: out.cursor(), mode_slots: mode_slots@, emitted: emitted@ }
}

/// One temperature range of the emission pass: validate the pointer at
/// `tr_off`; reference the waveform it addresses, expanding it — an
/// 8-byte slot, the expanded bytes, the decoded state count patched into
/// the slot — if this is its first reference, and reusing the recorded
/// slot and count otherwise; and append the slot entry to this mode's
/// temperature-range table, one entry per range, repeats included.
pub open spec fn spec_emit_range(
    data: Seq<u8>,
    ws: Seq<u32>,
    tr_off: int,
    st: EmitState,
    tr_slots: Seq<u32>,
) -> Result<(EmitState, Seq<u32>), WbfError> {
    if tr_off + 4 > data.len() {
        Err(WbfError::Format(FormatError::Truncated))
    } else if !ptr_valid(data, tr_off) {
        Err(WbfError::Checksum(ChecksumError::Pointer))
    } else {
        let addr = ptr_addr(data, tr_off);
        if emitted_has(st.emitted, addr) {
            let entry = emitted_get(st.emitted, addr).0;
            Ok((st, tr_slots.push(entry)))
        } else if st.pos < MYSTERIOUS_OFFSET || st.pos - MYSTERIOUS_OFFSET > 0xFFFFFFFF {
            Err(WbfError::Format(FormatError::Truncated))
        } else {
            let entry = (st.pos - MYSTERIOUS_OFFSET) as u32;
            let ts = tr_slots.push(entry);
            let fprev = st.pos;
            let out1 = spec_pad(st.out, fprev + 8);
            match spec_length_of(ws, addr) {
                None => Err(WbfError::Format(FormatError::UnknownWaveformLength)),
                Some(span) => {
                    if span == 0 {
                        Err(WbfError::Format(FormatError::UnknownWaveformLength))
                    } else if addr + span > data.len() {
                        Err(WbfError::Format(FormatError::Truncated))
                    } else {
                        let l: int = if span >= 2 {
                            span - 2
                        } else {
                            0
                        };
                        let dec = spec_decode(data, addr + l, addr as int, false);
                        let count = (dec.1 % 65536) as u16;
                        let out2 = spec_write(out1, fprev + 8, dec.0);
                        let pos2 = fprev + 8 + dec.0.len();
                        let out3 = spec_write(out2, fprev, u16_be_bytes(count));
                        Ok(
                            (
                                EmitState {
                                    out: out3,
                                    pos: pos2,
                                    mode_slots: st.mode_slots,
                                    emitted: st.emitted.push((addr, entry, count)),
                                },
                                ts,
                            ),
                        )
                    }
                },
            }
        }
    }
}

/// The emission pass across the ranges `r .. trc1` of the table at
/// `tr_base`.
pub open spec fn spec_emit_ranges(
    data: Seq<u8>,
    ws: Seq<u32>,
    tr_base: int,
    r: int,
    trc1: int,
    st: EmitState,
    tr_slots: Seq<u32>,
) -> Result<(EmitState, Seq<u32>), WbfError>
    decreases trc1 - r,
{
    if r >= trc1 {
        Ok((st, tr_slots))
    } else {
        match spec_emit_range(data, ws, tr_base + 4 * r, st, tr_slots) {
            Ok((st2, ts2)) => spec_emit_ranges(data, ws, tr_base, r + 1, trc1, st2, ts2),
            Err(e) => Err(e),
        }
    }
}

/// Table slots written into their reserved region: slot `k` is a 4-byte
/// little-endian entry at `table_addr + 8 * k`, every second 4-byte half
/// left as it was reserved.
pub open spec fn spec_write_table(out: Seq<u8>, table_addr: int, slots: Seq<u32>, k: int) -> Seq<
    u8,
>
    decreases slots.len() - k,
{
    if k >= slots.len() {
        out
    } else {
        spec_write_table(
            spec_pad(
                spec_write(out, table_addr + 8 * k, u32_le_bytes(slots[k])),
                table_addr + 8 * k + 8,
            ),
            table_addr,
            slots,
            k + 1,
        )
    }
}

/// One mode of the emission pass: validate the mode pointer at `off`,
/// record this mode's output slot, reserve its temperature-range table
/// region, walk its ranges, then patch the gathered slot entries into the
/// reserved region.
pub open spec fn spec_emit_mode(data: Seq<u8>, ws: Seq<u32>, off: int, trc1: int, st: EmitState) -> Result<
    EmitState,
    WbfError,
> {
    if off + 4 > data.len() {
        Err(WbfError::Format(FormatError::Truncated))
    } else if !ptr_valid(data, off) {
        Err(WbfError::Checksum(ChecksumError::Pointer))
    } else if st.pos < MYSTERIOUS_OFFSET || st.pos - MYSTERIOUS_OFFSET > 0xFFFFFFFF {
        Err(WbfError::Format(FormatError::Truncated))
    } else {
        match spec_add(st.mode_slots, (st.pos - MYSTERIOUS_OFFSET) as u32, crate::MAX_MODES as nat) {
            None => Err(WbfError::Capacity(CapacityError::Mode)),
            Some(ms2) => {
                let ftable = st.pos;
                let st1 = EmitState {
                    out: spec_pad(st.out, ftable + 8 * trc1),
                    pos: ftable + 8 * trc1,
                    mode_slots: ms2,
                    emitted: st.emitted,
                };
                match spec_emit_ranges(
                    data,
                    ws,
                    ptr_addr(data, off) as int,
                    0,
                    trc1,
                    st1,
                    Seq::empty(),
                ) {
                    Err(e) => Err(e),
                    Ok((st2, ts)) => Ok(
                        EmitState {
                            out: spec_write_table(st2.out, ftable, ts, 0),
                            pos: st2.pos,
                            mode_slots: st2.mode_slots,
                            emitted: st2.emitted,
                        },
                    ),
                }
            },
        }
    }
}

/// Patches gathered table slot entries into their reserved, zero-filled
/// region: entry `k` as 4 little-endian bytes at `table_addr + 8 * k`.
/// The cursor comes back to where it was.
pub fn write_table(out: &mut OutBuf, table_addr: usize, slots: &[u32])
    requires
        old(out).wf(),
        table_addr + 8 * slots@.len() <= old(out).bytes().len(),
    ensures
        final(out).wf(),
        final(out).bytes() == spec_write_table(old(out).bytes(), table_addr as int, slots@, 0),
        final(out).cursor() == old(out).cursor(),
        final(out).bytes().len() >= old(out).bytes().len(),
{
    let prev = out.tell();
    out.seek_set(table_addr);
    let n = slots.len();
    let mut k: usize = 0;
    while k < n
        invariant
            0 <= k <= n,
            n == slots@.len(),
            out.wf(),
            out.cursor() == table_addr + 8 * k,
            out.bytes().len() >= old(out).bytes().len(),
            spec_write_table(out.bytes(), table_addr as int, slots@, k as int) == spec_write_table(
                old(out).bytes(),
                table_addr as int,
                slots@,
                0,
            ),
        decreases n - k,
    {
        let ghost before = out.bytes();
        out.write_u32_le(slots[k]);
        out.seek_cur(4);
        proof {
            crate::outbuf::lemma_write_len(before, table_addr + 8 * k, u32_le_bytes(slots@[k as int]));
            crate::outbuf::lemma_pad_len(
                spec_write(before, table_addr + 8 * k, u32_le_bytes(slots@[k as int])),
                table_addr + 8 * k + 8,
            );
        }
        k = k + 1;
    }
    out.seek_set(prev);
}

/// One temperature range of the emission pass; see `spec_emit_range`,
/// which this walk is proved to follow exactly. The mode slots, which the
/// range step never touches, enter only as the ghost `ms`.
fn emit_range(
    data: &[u8],
    ws: &AddressSet,
    tr_off: usize,
    out: &mut OutBuf,
    tr_slots: &mut Vec<u32>,
    emitted: &mut EmittedMap,
    Ghost(ms): Ghost<Seq<u32>>,
) -> (r: Result<(), WbfError>)
    requires
        ws.wf(),
        old(out).wf(),
        old(emitted).wf(),
    ensures
        final(out).wf(),
        final(emitted).wf(),
        final(out).bytes().len() >= old(out).bytes().len(),
        final(tr_slots)@.len() <= old(tr_slots)@.len() + 1,
        match r {
            Ok(_) => spec_emit_range(
                data@,
                ws@,
                tr_off as int,
                EmitState {
                    out: old(out).bytes(),
                    pos: old(out).cursor(),
                    mode_slots: ms,
                    emitted: old(emitted)@,
                },
                old(tr_slots)@,
            ) == Ok::<_, WbfError>(
                (
                    EmitState {
                        out: final(out).bytes(),
                        pos: final(out).cursor(),
                        mode_slots: ms,
                        emitted: final(emitted)@,
                    },
                    final(tr_slots)@,
                ),
            ),
            Err(e) => spec_emit_range(
                data@,
                ws@,
                tr_off as int,
                EmitState {
                    out: old(out).bytes(),
                    pos: old(out).cursor(),
                    mode_slots: ms,
                    emitted: old(emitted)@,
                },
                old(tr_slots)@,
            ) == Err::<(EmitState, Seq<u32>), _>(e),
        },
{
    let dlen = data.len();
    if dlen < 4 || tr_off > dlen - 4 {
        return Err(WbfError::Format(FormatError::Truncated));
    }
    let tr = match pointer::parse(data, tr_off) {
        Ok(p) => p,
        Err(e) => {
            return Err(e);
        },
    };
    let addr = tr.addr;
    match emitted.find(addr) {
        Some((entry, _count)) => {
            tr_slots.push(entry);
            Ok(())
        },
        None => {
            let fprev = out.tell();
            if fprev < MYSTERIOUS_OFFSET {
                return Err(WbfError::Format(FormatError::Truncated));
            }
            let entry_big = fprev - MYSTERIOUS_OFFSET;
            if entry_big > 0xFFFFFFFF {
                return Err(WbfError::Format(FormatError::Truncated));
            }
            let entry = entry_big as u32;
            tr_slots.push(entry);
            let ghost out0 = out.bytes();
            out.seek_cur(8);
            proof {
                crate::outbuf::lemma_pad_len(out0, fprev + 8);
            }
            let span = match ws.get_waveform_length(addr) {
                Some(s) => s,
                None => {
                    return Err(WbfError::Format(FormatError::UnknownWaveformLength));
                },
            };
            if span == 0 {
                return Err(WbfError::Format(FormatError::UnknownWaveformLength));
            }
            if addr as usize > dlen || span as usize > dlen - addr as usize {
                return Err(WbfError::Format(FormatError::Truncated));
            }
            let l: usize = if span >= 2 {
                (span - 2) as usize
            } else {
                0
            };
            let (expanded, count) = parse_waveform(data, addr as usize, l);
            let ghost out1 = out.bytes();
            out.write(expanded.as_slice());
            proof {
                crate::outbuf::lemma_write_len(out1, fprev + 8, expanded@);
            }
            let fcur = out.tell();
            out.seek_set(fprev);
            let ghost out2 = out.bytes();
            out.write_u16_be(count);
            proof {
                crate::outbuf::lemma_write_len(out2, fprev as int, u16_be_bytes(count));
            }
            out.seek_set(fcur);
            emitted.push_new(addr, entry, count);
            Ok(())
        },
    }
}

/// One mode of the emission pass; see `spec_emit_mode`, which this walk
/// is proved to follow exactly.
fn emit_mode(
    data: &[u8],
    ws: &AddressSet,
    off: usize,
    trc1: usize,
    out: &mut OutBuf,
    mode_slots: &mut AddressSet,
    emitted: &mut EmittedMap,
) -> (r: Result<(), WbfError>)
    requires
        ws.wf(),
        trc1 <= 256,
        old(out).wf(),
        old(mode_slots).wf(),
        old(mode_slots).spec_capacity() == crate::MAX_MODES,
        old(mode_slots).spec_kind() == CapacityError::Mode,
        old(emitted).wf(),
    ensures
        final(out).wf(),
        final(mode_slots).wf(),
        final(emitted).wf(),
        final(mode_slots).spec_capacity() == crate::MAX_MODES,
        final(mode_slots).spec_kind() == CapacityError::Mode,
        final(out).bytes().len() >= old(out).bytes().len(),
        final(mode_slots)@.len() <= old(mode_slots)@.len() + 1,
        match r {
            Ok(_) => spec_emit_mode(
                data@,
                ws@,
                off as int,
                trc1 as int,
                st_of(*old(out), *old(mode_slots), *old(emitted)),
            ) == Ok::<_, WbfError>(st_of(*final(out), *final(mode_slots), *final(emitted))),
            Err(e) => spec_emit_mode(
                data@,
                ws@,
                off as int,
                trc1 as int,
                st_of(*old(out), *old(mode_slots), *old(emitted)),
            ) == Err::<EmitState, _>(e),
        },
{
    let dlen = data.len();
    if dlen < 4 || off > dlen - 4 {
        return Err(WbfError::Format(FormatError::Truncated));
    }
    let mode = match pointer::parse(data, off) {
        Ok(p) => p,
        Err(e) => {
            return Err(e);
        },
    };
    let fpos = out.tell();
    if fpos < MYSTERIOUS_OFFSET {
        return Err(WbfError::Format(FormatError::Truncated));
    }
    let entry_big = fpos - MYSTERIOUS_OFFSET;
    if entry_big > 0xFFFFFFFF {
        return Err(WbfError::Format(FormatError::Truncated));
    }
    match mode_slots.add_addr(entry_big as u32) {
        Ok(_) => (),
        Err(e) => {
            return Err(e);
        },
    }
    let ghost ms2 = mode_slots@;
    let ftable = fpos;
    let ghost out0 = out.bytes();
    out.seek_cur(8 * trc1);
    proof {
        crate::outbuf::lemma_pad_len(out0, ftable + 8 * trc1);
    }
    let mut tr_slots: Vec<u32> = Vec::new();
    let tr_base = mode.addr as usize;
    let mut rr: usize = 0;
    while rr < trc1
        invariant
            0 <= rr <= trc1,
            trc1 <= 256,
            tr_base < 16777216,
            ws.wf(),
            out.wf(),
            emitted.wf(),
            tr_slots@.len() <= rr,
            mode_slots@ == ms2,
            mode_slots@.len() <= old(mode_slots)@.len() + 1,
            mode_slots.wf(),
            mode_slots.spec_capacity() == crate::MAX_MODES,
            mode_slots.spec_kind() == CapacityError::Mode,
            out.bytes().len() >= ftable + 8 * trc1,
            out.bytes().len() >= old(out).bytes().len(),
            spec_emit_mode(
                data@,
                ws@,
                off as int,
                trc1 as int,
                EmitState {
                    out: old(out).bytes(),
                    pos: old(out).cursor(),
                    mode_slots: old(mode_slots)@,
                    emitted: old(emitted)@,
                },
            ) == (match spec_emit_ranges(
                data@,
                ws@,
                tr_base as int,
                rr as int,
                trc1 as int,
                EmitState {
                    out: out.bytes(),
                    pos: out.cursor(),
                    mode_slots: ms2,
                    emitted: emitted@,
                },
                tr_slots@,
            ) {
                Ok((st2, ts)) => Ok::<EmitState, WbfError>(
                    EmitState {
                        out: spec_write_table(st2.out, ftable as int, ts, 0),
                        pos: st2.pos,
                        mode_slots: st2.mode_slots,
                        emitted: st2.emitted,
                    },
                ),
                Err(e) => Err(e),
            }),
        decreases trc1 - rr,
    {
        let ghost st_entry = EmitState {
            out: out.bytes(),
            pos: out.cursor(),
            mode_slots: ms2,
            emitted: emitted@,
        };
        let ghost ts_entry = tr_slots@;
        let tr_off = tr_base + 4 * rr;
        match emit_range(data, ws, tr_off, out, &mut tr_slots, emitted, Ghost(ms2)) {
            Ok(_) => (),
            Err(e) => {
                proof {
                    assert(spec_emit_range(data@, ws@, tr_off as int, st_entry, ts_entry)
                        == Err::<(EmitState, Seq<u32>), _>(e));
                    assert(spec_emit_ranges(
                        data@,
                        ws@,
                        tr_base as int,
                        rr as int,
                        trc1 as int,
                        st_entry,
                        ts_entry,
                    ) == Err::<(EmitState, Seq<u32>), _>(e));
                    assert(spec_emit_mode(
                        data@,
                        ws@,
                        off as int,
                        trc1 as int,
                        EmitState {
                            out: old(out).bytes(),
                            pos: old(out).cursor(),
                            mode_slots: old(mode_slots)@,
                            emitted: old(emitted)@,
                        },
                    ) == Err::<EmitState, _>(e));
                }
                return Err(e);
            },
        }
        rr = rr + 1;
    }
    write_table(out, ftable, tr_slots.as_slice());
    Ok(())
}

/// The emission pass across the modes `m .. mcount` of the mode table at
/// `ms`.
pub open spec fn spec_emit_modes(
    data: Seq<u8>,
    ws: Seq<u32>,
    ms: int,
    m: int,
    mcount: int,
    trc1: int,
    st: EmitState,
) -> Result<EmitState, WbfError>
    decreases mcount - m,
{
    if m >= mcount {
        Ok(st)
    } else {
        match spec_emit_mode(data, ws, ms + 4 * m, trc1, st) {
            Ok(st2) => spec_emit_modes(data, ws, ms, m + 1, mcount, trc1, st2),
            Err(e) => Err(e),
        }
    }
}

/// Pass 2, the emission pass: re-walks the identical mode and
/// temperature-range pointer structure, expanding each unique waveform
/// exactly once and gathering the output mode table slots. Follows
/// `spec_emit_modes` exactly, first failure included.
pub fn emit_modes(
    data: &[u8],
    ws: &AddressSet,
    modes_start: usize,
    mcount: usize,
    trc1: usize,
    out: &mut OutBuf,
    mode_slots: &mut AddressSet,
    emitted: &mut EmittedMap,
) -> (r: Result<(), WbfError>)
    requires
        ws.wf(),
        mcount <= 256,
        trc1 <= 256,
        old(out).wf(),
        old(mode_slots).wf(),
        old(mode_slots).spec_capacity() == crate::MAX_MODES,
        old(mode_slots).spec_kind() == CapacityError::Mode,
        old(emitted).wf(),
    ensures
        final(out).wf(),
        final(mode_slots).wf(),
        final(emitted).wf(),
        final(mode_slots).spec_capacity() == crate::MAX_MODES,
        final(mode_slots).spec_kind() == CapacityError::Mode,
        final(out).bytes().len() >= old(out).bytes().len(),
        final(mode_slots)@.len() <= old(mode_slots)@.len() + mcount,
        match r {
            Ok(_) => spec_emit_modes(
                data@,
                ws@,
                modes_start as int,
                0,
                mcount as int,
                trc1 as int,
                st_of(*old(out), *old(mode_slots), *old(emitted)),
            ) == Ok::<_, WbfError>(st_of(*final(out), *final(mode_slots), *final(emitted))),
            Err(e) => spec_emit_modes(
                data@,
                ws@,
                modes_start as int,
                0,
                mcount as int,
                trc1 as int,
                st_of(*old(out), *old(mode_slots), *old(emitted)),
            ) == Err::<EmitState, _>(e),
        },
{
    let dlen = data.len();
    let mut m: usize = 0;
    let mut off: usize = modes_start;
    while m < mcount
        invariant
            0 <= m <= mcount,
            mcount <= 256,
            trc1 <= 256,
            dlen == data@.len(),
            off == modes_start + 4 * m,
            ws.wf(),
            out.wf(),
            mode_slots.wf(),
            emitted.wf(),
            mode_slots.spec_capacity() == crate::MAX_MODES,
            mode_slots.spec_kind() == CapacityError::Mode,
            mode_slots@.len() <= old(mode_slots)@.len() + m,
            out.bytes().len() >= old(out).bytes().len(),
            spec_emit_modes(
                data@,
                ws@,
                modes_start as int,
                0,
                mcount as int,
                trc1 as int,
                st_of(*old(out), *old(mode_slots), *old(emitted)),
            ) == spec_emit_modes(
                data@,
                ws@,
                modes_start as int,
                m as int,
                mcount as int,
                trc1 as int,
                EmitState {
                    out: out.bytes(),
                    pos: out.cursor(),
                    mode_slots: mode_slots@,
                    emitted: emitted@,
                },
            ),
        decreases mcount - m,
    {
        let ghost st_entry = EmitState {
            out: out.bytes(),
            pos: out.cursor(),
            mode_slots: mode_slots@,
            emitted: emitted@,
        };
        match emit_mode(data, ws, off, trc1, out, mode_slots, emitted) {
            Ok(_) => (),
            Err(e) => {
                proof {
                    assert(spec_emit_mode(data@, ws@, off as int, trc1 as int, st_entry)
                        == Err::<EmitState, _>(e));
                    assert(spec_emit_modes(
                        data@,
                        ws@,
                        modes_start as int,
                        m as int,
                        mcount as int,
                        trc1 as int,
                        st_entry,
                    ) == Err::<EmitState, _>(e));
                }
                return Err(e);
            },
        }
        proof {
            assert(spec_emit_mode(data@, ws@, off as int, trc1 as int, st_entry) matches Ok(_));
            if off + 4 > data@.len() {
                assert(false);
            }
            assert(off + 4 <= dlen);
        }
        off = off + 4;
        m = m + 1;
    }
    Ok(())
}

} // verus!
