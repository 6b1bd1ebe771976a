//! The run-length state codec: expands a packed 2-bit-per-state waveform
//! stream into one byte per state. A sentinel byte toggles "fast change"
//! mode, in which every state byte implies a repeat count of one instead
//! of carrying an explicit count byte after it.

use vstd::prelude::*;

use crate::packed::{packed_state, spec_unpack};

verus! {

/// The sentinel byte that toggles fast-change mode.
pub const TERMINATOR: u8 = 252;

/// `s` concatenated `n` times.
pub open spec fn repeat_states(s: Seq<u8>, n: int) -> Seq<u8>
    decreases n,
{
    if n <= 0 {
        Seq::empty()
    } else {
        s + repeat_states(s, n - 1)
    }
}

/// Appending one more copy extends a repetition on the right.
pub proof fn lemma_repeat_snoc(s: Seq<u8>, n: int)
    requires
        n >= 0,
    ensures
        repeat_states(s, n + 1) == repeat_states(s, n) + s,
    decreases n,
{
    if n == 0 {
        assert(repeat_states(s, 1) =~= repeat_states(s, 0) + s);
    } else {
        lemma_repeat_snoc(s, n - 1);
        assert(s + (repeat_states(s, n - 1) + s) =~= (s + repeat_states(s, n - 1)) + s);
    }
}

/// The decoder's result from cursor `i` up to `end`, in fast-change state
/// `fc`: the expanded bytes and the total count of expanded state bytes.
/// Decoding stops when the cursor reaches `end`. A sentinel toggles `fc`
/// and emits nothing; any other byte is a packed state, expanded once in
/// fast-change mode and otherwise `count byte + 1` times, where a state
/// byte with no count byte left gets a count of one.
pub open spec fn spec_decode(w: Seq<u8>, end: int, i: int, fc: bool) -> (Seq<u8>, int)
    decreases end - i,
{
    if i >= end {
        (Seq::empty(), 0)
    } else if w[i] == TERMINATOR {
        spec_decode(w, end, i + 1, !fc)
    } else if fc {
        let rest = spec_decode(w, end, i + 1, fc);
        (spec_unpack(w[i]) + rest.0, 4 + rest.1)
    } else {
        let count: int = if i + 1 >= end {
            1
        } else {
            w[i + 1] + 1
        };
        let next: int = if i + 2 <= end {
            i + 2
        } else {
            end
        };
        let rest = spec_decode(w, end, next, fc);
        (repeat_states(spec_unpack(w[i]), count) + rest.0, 4 * count + rest.1)
    }
}

/// Decodes the waveform bytes `data[start .. start + l]` (the waveform's
/// span with its trailer already taken off). Returns the expanded stream —
/// four bytes `s0, s1, s2, s3` per repetition — and the running total of
/// expanded state bytes, kept modulo 65536 as the output tables store it.
pub fn parse_waveform(data: &[u8], start: usize, l: usize) -> (r: (Vec<u8>, u16))
    requires
        start + l <= data@.len(),
    ensures
        r.0@ == spec_decode(data@, start + l, start as int, false).0,
        r.1 == spec_decode(data@, start + l, start as int, false).1 % 65536,
{
    let dlen = data.len();
    let end = start + l;
    let ghost full = spec_decode(data@, end as int, start as int, false);
    let mut out: Vec<u8> = Vec::new();
    let mut state_count: u16 = 0;
    let ghost mut total: int = 0int;
    let mut fc = false;
    let mut i: usize = start;
    while i < end
        invariant
            start <= i <= end,
            end == start + l,
            end <= dlen,
            dlen == data@.len(),
            full == spec_decode(data@, end as int, start as int, false),
            full.0 == out@ + spec_decode(data@, end as int, i as int, fc).0,
            full.1 == total + spec_decode(data@, end as int, i as int, fc).1,
            state_count == total % 65536,
            total >= 0,
        decreases end - i,
    {
        let b = data[i];
        let ghost prev = spec_decode(data@, end as int, i as int, fc);
        if b == TERMINATOR {
            fc = !fc;
            i = i + 1;
        } else {
            let s = packed_state::__init__(b);
            let count: usize = if fc {
                1
            } else if i + 1 >= end {
                1
            } else {
                data[i + 1] as usize + 1
            };
            let ghost base = out@;
            let mut j: usize = 0;
            while j < count
                invariant
                    0 <= j <= count,
                    seq![s.s0, s.s1, s.s2, s.s3] == spec_unpack(b),
                    out@ == base + repeat_states(spec_unpack(b), j as int),
                decreases count - j,
            {
                out.push(s.s0);
                out.push(s.s1);
                out.push(s.s2);
                out.push(s.s3);
                proof {
                    lemma_repeat_snoc(spec_unpack(b), j as int);
                    assert(out@ =~= base + repeat_states(spec_unpack(b), j + 1));
                }
                j = j + 1;
            }
            proof {
                if fc {
                    assert(prev.0 == spec_unpack(b) + spec_decode(
                        data@,
                        end as int,
                        i + 1,
                        fc,
                    ).0);
                    assert(repeat_states(spec_unpack(b), 0) =~= Seq::empty());
                    assert(repeat_states(spec_unpack(b), 1) =~= spec_unpack(b));
                } else {
                    let next: int = if i + 2 <= end {
                        i + 2
                    } else {
                        end as int
                    };
                    assert(prev.0 == repeat_states(spec_unpack(b), count as int) + spec_decode(
                        data@,
                        end as int,
                        next,
                        fc,
                    ).0);
                }
            }
            let c4: u32 = 4 * (count as u32);
            proof {
                vstd::arithmetic::div_mod::lemma_add_mod_noop(total, c4 as int, 65536);
                assert(c4 as int % 65536 == c4 as int);
            }
            state_count = ((state_count as u32 + c4) % 65536) as u16;
            proof {
                total = total + 4 * (count as int);
                if fc {
                    assert(full.0 =~= out@ + spec_decode(data@, end as int, i + 1, fc).0);
                } else {
                    let next: int = if i + 2 <= end {
                        i + 2
                    } else {
                        end as int
                    };
                    assert(full.0 =~= out@ + spec_decode(data@, end as int, next, fc).0);
                }
            }
            if fc {
                i = i + 1;
            } else if end - i < 2 {
                i = end;
            } else {
                i = i + 2;
            }
        }
    }
    proof {
        assert(spec_decode(data@, end as int, i as int, fc).0 =~= Seq::empty());
        assert(full.0 =~= out@);
    }
    (out, state_count)
}

} // verus!
