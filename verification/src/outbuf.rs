//! The output sink: an in-memory byte buffer with a write cursor that can
//! seek backwards to patch previously reserved table slots. Seeking or
//! writing past the end zero-fills the gap, as reserving a table region
//! in the container does.

use vstd::prelude::*;

verus! {

/// `buf` extended with zeros so that it is at least `p` long.
pub open spec fn spec_pad(buf: Seq<u8>, p: int) -> Seq<u8> {
    Seq::new(
        (if buf.len() > p {
            buf.len() as int
        } else {
            p
        }) as nat,
        |k: int|
            if k < buf.len() {
                buf[k]
            } else {
                0u8
            },
    )
}

/// `buf` with `data` written at `pos`: zero-filled up to `pos` if the
/// buffer was shorter, the region `[pos, pos + data.len())` overwritten,
/// everything else kept.
pub open spec fn spec_write(buf: Seq<u8>, pos: int, data: Seq<u8>) -> Seq<u8> {
    Seq::new(
        (if buf.len() > pos + data.len() {
            buf.len() as int
        } else {
            pos + data.len()
        }) as nat,
        |k: int|
            if pos <= k < pos + data.len() {
                data[k - pos]
            } else if k < buf.len() {
                buf[k]
            } else {
                0u8
            },
    )
}

/// Writing never shrinks the output, and reaches at least to the end of
/// what was written.
pub proof fn lemma_write_len(buf: Seq<u8>, pos: int, data: Seq<u8>)
    requires
        pos >= 0,
    ensures
        spec_write(buf, pos, data).len() >= buf.len(),
        spec_write(buf, pos, data).len() >= pos + data.len(),
{
}

/// Padding never shrinks the output, and reaches at least to the target.
pub proof fn lemma_pad_len(buf: Seq<u8>, p: int)
    requires
        p >= 0,
    ensures
        spec_pad(buf, p).len() >= buf.len(),
        spec_pad(buf, p).len() >= p,
{
}

/// The in-memory output file.
pub struct OutBuf {
    buf: Vec<u8>,
    pos: usize,
}

impl OutBuf {
    /// The bytes written so far.
    pub closed spec fn bytes(self) -> Seq<u8> {
        self.buf@
    }

    /// The write cursor. Never past the end: forward seeks zero-fill.
    pub closed spec fn cursor(self) -> int {
        self.pos as int
    }

    pub open spec fn wf(self) -> bool {
        self.cursor() <= self.bytes().len()
    }

    /// An empty output with the cursor at the start.
    pub fn new() -> (r: OutBuf)
        ensures
            r.bytes() == Seq::<u8>::empty(),
            r.cursor() == 0,
            r.wf(),
    {
        OutBuf { buf: Vec::new(), pos: 0 }
    }

    /// The current cursor position.
    pub fn tell(&self) -> (r: usize)
        ensures
            r == self.cursor(),
    {
        self.pos
    }

    /// How many bytes the output holds.
    pub fn len(&self) -> (r: usize)
        ensures
            r == self.bytes().len(),
    {
        self.buf.len()
    }

    /// Hands the finished output over.
    pub fn into_vec(self) -> (r: Vec<u8>)
        ensures
            r@ == self.bytes(),
    {
        self.buf
    }

    /// Moves the cursor to an absolute position inside the output.
    pub fn seek_set(&mut self, p: usize)
        requires
            old(self).wf(),
            p <= old(self).bytes().len(),
        ensures
            final(self).wf(),
            final(self).bytes() == old(self).bytes(),
            final(self).cursor() == p,
    {
        self.pos = p;
    }

    /// Moves the cursor forward by `delta`, zero-filling whatever part of
    /// the skipped region did not exist yet.
    pub fn seek_cur(&mut self, delta: usize)
        requires
            old(self).wf(),
        ensures
            final(self).wf(),
            final(self).bytes() == spec_pad(old(self).bytes(), old(self).cursor() + delta),
            final(self).cursor() == old(self).cursor() + delta,
    {
        let ghost start = self.buf@;
        let ghost target = self.pos + delta;
        let mut i: usize = 0;
        while i < delta
            invariant
                0 <= i <= delta,
                self.pos == old(self).pos + i,
                self.pos <= self.buf@.len(),
                self.buf@ == spec_pad(start, old(self).pos + i),
            decreases delta - i,
        {
            if self.pos == self.buf.len() {
                self.buf.push(0);
            }
            let nlen = self.buf.len();
            assert(self.pos < nlen);
            self.pos = self.pos + 1;
            proof {
                assert(self.buf@ =~= spec_pad(start, old(self).pos + i + 1));
            }
            i = i + 1;
        }
        proof {
            assert(spec_pad(start, old(self).pos as int) =~= start);
        }
    }

    /// Writes `data` at the cursor, overwriting what is there, growing the
    /// output where the write runs past its end, and leaving the cursor
    /// after the last byte written.
    pub fn write(&mut self, data: &[u8])
        requires
            old(self).wf(),
        ensures
            final(self).wf(),
            final(self).bytes() == spec_write(old(self).bytes(), old(self).cursor(), data@),
            final(self).cursor() == old(self).cursor() + data@.len(),
    {
        let ghost start = self.buf@;
        let ghost pos0 = self.pos as int;
        let dlen = data.len();
        let mut i: usize = 0;
        proof {
            assert(self.buf@ =~= spec_write(start, pos0, data@.subrange(0, 0)));
        }
        while i < dlen
            invariant
                0 <= i <= dlen,
                dlen == data@.len(),
                self.pos == pos0 + i,
                self.pos <= self.buf@.len(),
                self.buf@ == spec_write(start, pos0, data@.subrange(0, i as int)),
            decreases dlen - i,
        {
            if self.pos == self.buf.len() {
                self.buf.push(data[i]);
            } else {
                self.buf.set(self.pos, data[i]);
            }
            let nlen = self.buf.len();
            assert(self.pos < nlen);
            self.pos = self.pos + 1;
            proof {
                assert(self.buf@ =~= spec_write(start, pos0, data@.subrange(0, i + 1)));
            }
            i = i + 1;
        }
        proof {
            assert(data@.subrange(0, dlen as int) =~= data@);
        }
    }

    /// Writes a 32-bit value at the cursor in little-endian order, as the
    /// output address tables store their slot entries.
    pub fn write_u32_le(&mut self, x: u32)
        requires
            old(self).wf(),
        ensures
            final(self).wf(),
            final(self).bytes() == spec_write(old(self).bytes(), old(self).cursor(), u32_le_bytes(x)),
            final(self).cursor() == old(self).cursor() + 4,
    {
        let mut v: Vec<u8> = Vec::new();
        v.push((x % 256) as u8);
        v.push(((x / 256) % 256) as u8);
        v.push(((x / 65536) % 256) as u8);
        v.push((x / 16777216) as u8);
        proof {
            assert(v@ =~= u32_le_bytes(x));
        }
        self.write(v.as_slice());
    }

    /// Writes a 16-bit value at the cursor in big-endian order, as the
    /// decoded state counts are patched into their table slots.
    pub fn write_u16_be(&mut self, x: u16)
        requires
            old(self).wf(),
        ensures
            final(self).wf(),
            final(self).bytes() == spec_write(old(self).bytes(), old(self).cursor(), u16_be_bytes(x)),
            final(self).cursor() == old(self).cursor() + 2,
    {
        let mut v: Vec<u8> = Vec::new();
        v.push((x / 256) as u8);
        v.push((x % 256) as u8);
        proof {
            assert(v@ =~= u16_be_bytes(x));
        }
        self.write(v.as_slice());
    }
}

/// The four little-endian bytes of a 32-bit value.
pub open spec fn u32_le_bytes(x: u32) -> Seq<u8> {
    seq![
        (x % 256) as u8,
        ((x / 256) % 256) as u8,
        ((x / 65536) % 256) as u8,
        (x / 16777216) as u8,
    ]
}

/// The two big-endian bytes of a 16-bit value.
pub open spec fn u16_be_bytes(x: u16) -> Seq<u8> {
    seq![(x / 256) as u8, (x % 256) as u8]
}

} // verus!
