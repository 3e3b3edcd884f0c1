//! Read and write cursors over byte buffers: sequential, strictly
//! increasing access used to pack and unpack the fixed-layout wire
//! structures.

use vstd::prelude::*;
use crate::codec::{
    u16_le, u16_from_le, i16_le, i16_from_le, u64_le, u64_from_le, u16_to_bytes, u16_from_bytes,
    i16_to_bytes, i16_from_bytes, u64_to_bytes, u64_from_bytes,
};

verus! {

/// A cursor that reads a borrowed byte slice at strictly increasing
/// positions.
pub struct ReadCursor<'a> {
    /// The buffer being read.
    buf: &'a [u8],
    /// The next position to read.
    pos: usize,
}

impl<'a> ReadCursor<'a> {
    /// The bytes of the underlying buffer.
    pub closed spec fn bytes(self) -> Seq<u8> {
        self.buf@
    }

    /// The next position to read.
    pub closed spec fn at(self) -> int {
        self.pos as int
    }

    /// The cursor reads within its buffer.
    pub closed spec fn wf(self) -> bool {
        self.pos <= self.buf@.len() && self.buf@.len() <= usize::MAX
    }

    /// Create a cursor at the start of a buffer.
    pub fn new(buf: &'a [u8]) -> (r: Self)
        ensures
            r.bytes() == buf@,
            r.at() == 0,
            r.wf(),
    {
        proof {
            vstd::slice::axiom_spec_len(buf);
        }
        ReadCursor { buf, pos: 0 }
    }

    /// Skip `n` bytes.
    pub fn advance(&mut self, n: usize)
        requires
            old(self).wf(),
            old(self).at() + n <= old(self).bytes().len(),
        ensures
            final(self).bytes() == old(self).bytes(),
            final(self).at() == old(self).at() + n,
            final(self).wf(),
    {
        self.pos = self.pos + n;
    }

    /// Read a 16-bit value and advance past it.
    pub fn read_u16(&mut self) -> (r: u16)
        requires
            old(self).wf(),
            old(self).at() + 2 <= old(self).bytes().len(),
        ensures
            final(self).bytes() == old(self).bytes(),
            final(self).at() == old(self).at() + 2,
            final(self).wf(),
            r == u16_from_le(old(self).bytes()[old(self).at()], old(self).bytes()[old(self).at() + 1]),
    {
        let r = u16_from_bytes(self.buf[self.pos], self.buf[self.pos + 1]);
        self.pos = self.pos + 2;
        r
    }

    /// Read a signed 16-bit value and advance past it.
    pub fn read_i16(&mut self) -> (r: i16)
        requires
            old(self).wf(),
            old(self).at() + 2 <= old(self).bytes().len(),
        ensures
            final(self).bytes() == old(self).bytes(),
            final(self).at() == old(self).at() + 2,
            final(self).wf(),
            r == i16_from_le(old(self).bytes()[old(self).at()], old(self).bytes()[old(self).at() + 1]),
    {
        let r = i16_from_bytes(self.buf[self.pos], self.buf[self.pos + 1]);
        self.pos = self.pos + 2;
        r
    }

    /// Read a 64-bit value and advance past it.
    pub fn read_u64(&mut self) -> (r: u64)
        requires
            old(self).wf(),
            old(self).at() + 8 <= old(self).bytes().len(),
        ensures
            final(self).bytes() == old(self).bytes(),
            final(self).at() == old(self).at() + 8,
            final(self).wf(),
            r == u64_from_le(old(self).bytes().subrange(old(self).at(), old(self).at() + 8)),
    {
        let mut b: Vec<u8> = Vec::new();
        let mut i: usize = 0;
        while i < 8
            invariant
                i <= 8,
                self.pos + 8 <= self.buf@.len(),
                self.buf@.len() <= usize::MAX,
                b@ =~= self.buf@.subrange(self.pos as int, self.pos + i),
            decreases 8 - i,
        {
            b.push(self.buf[self.pos + i]);
            i = i + 1;
        }
        let r = u64_from_bytes(b.as_slice());
        self.pos = self.pos + 8;
        r
    }

    /// Read a machine-word value, stored as eight bytes, and advance past
    /// it.
    pub fn read_usize(&mut self) -> (r: Option<usize>)
        requires
            old(self).wf(),
            old(self).at() + 8 <= old(self).bytes().len(),
        ensures
            final(self).bytes() == old(self).bytes(),
            final(self).at() == old(self).at() + 8,
            final(self).wf(),
            ({
                let v = u64_from_le(old(self).bytes().subrange(old(self).at(), old(self).at() + 8));
                if v <= usize::MAX {
                    r == Some(v as usize)
                } else {
                    r is None
                }
            }),
    {
        let v = self.read_u64();
        if v <= usize::MAX as u64 {
            Some(v as usize)
        } else {
            None
        }
    }

    /// Read `n` bytes into a fresh vector and advance past them.
    pub fn read_literal(&mut self, n: usize) -> (r: Vec<u8>)
        requires
            old(self).wf(),
            old(self).at() + n <= old(self).bytes().len(),
        ensures
            final(self).bytes() == old(self).bytes(),
            final(self).at() == old(self).at() + n,
            final(self).wf(),
            r@ == old(self).bytes().subrange(old(self).at(), old(self).at() + n),
    {
        let mut b: Vec<u8> = Vec::new();
        let mut i: usize = 0;
        while i < n
            invariant
                i <= n,
                self.pos + n <= self.buf@.len(),
                self.buf@.len() <= usize::MAX,
                b@ =~= self.buf@.subrange(self.pos as int, self.pos + i),
            decreases n - i,
        {
            b.push(self.buf[self.pos + i]);
            i = i + 1;
        }
        self.pos = self.pos + n;
        b
    }

    /// Copy as many bytes as fit from the cursor into the front of `dst`,
    /// advance past them, and say how many were copied.
    pub fn copy_to(&mut self, dst: &mut Vec<u8>) -> (n: usize)
        requires
            old(self).wf(),
        ensures
            final(self).bytes() == old(self).bytes(),
            final(self).wf(),
            final(dst)@.len() == old(dst)@.len(),
            n == vstd::math::min(old(dst)@.len() as int, old(self).bytes().len() - old(self).at()),
            final(self).at() == old(self).at() + n,
            final(dst)@ =~= old(self).bytes().subrange(old(self).at(), old(self).at() + n)
                + old(dst)@.skip(n as int),
    {
        let avail = self.buf.len() - self.pos;
        let n = if dst.len() < avail { dst.len() } else { avail };
        let mut i: usize = 0;
        while i < n
            invariant
                i <= n,
                self.pos + n <= self.buf@.len(),
                self.buf@.len() <= usize::MAX,
                n <= dst@.len(),
                dst@.len() == old(dst)@.len(),
                forall|k: int| 0 <= k < i ==> dst@[k] == self.buf@[self.pos + k],
                forall|k: int| i <= k < dst@.len() ==> dst@[k] == old(dst)@[k],
            decreases n - i,
        {
            let b = self.buf[self.pos + i];
            dst.set(i, b);
            i = i + 1;
        }
        self.pos = self.pos + n;
        n
    }
}

/// A cursor that writes a byte buffer at strictly increasing positions.
/// It takes the buffer by value and hands it back through
/// [`WriteCursor::into_inner`]; each write consumes the cursor and returns
/// the advanced one, so writes chain.
pub struct WriteCursor {
    /// The buffer being written.
    buf: Vec<u8>,
    /// The next position to write.
    pos: usize,
}

impl WriteCursor {
    /// The bytes of the underlying buffer.
    pub closed spec fn bytes(self) -> Seq<u8> {
        self.buf@
    }

    /// The next position to write.
    pub closed spec fn at(self) -> int {
        self.pos as int
    }

    /// The cursor writes within its buffer.
    pub closed spec fn wf(self) -> bool {
        self.pos <= self.buf@.len() && self.buf@.len() <= usize::MAX
    }

    /// Create a cursor at the start of a buffer.
    pub fn new(buf: Vec<u8>) -> (r: Self)
        ensures
            r.bytes() == buf@,
            r.at() == 0,
            r.wf(),
    {
        proof {
            vstd::std_specs::vec::axiom_spec_len(&buf);
        }
        WriteCursor { buf, pos: 0 }
    }

    /// Hand the buffer back.
    pub fn into_inner(self) -> (r: Vec<u8>)
        ensures
            r@ == self.bytes(),
    {
        self.buf
    }

    /// Skip `n` bytes, leaving them as they are.
    pub fn advance(self, n: usize) -> (r: Self)
        requires
            self.wf(),
            self.at() + n <= self.bytes().len(),
        ensures
            r.bytes() == self.bytes(),
            r.at() == self.at() + n,
            r.wf(),
    {
        WriteCursor { buf: self.buf, pos: self.pos + n }
    }

    /// Write the bytes of `src` and advance past them.
    pub fn write(self, src: &[u8]) -> (r: Self)
        requires
            self.wf(),
            self.at() + src@.len() <= self.bytes().len(),
        ensures
            r.wf(),
            r.at() == self.at() + src@.len(),
            r.bytes().len() == self.bytes().len(),
            r.bytes() =~= self.bytes().subrange(0, self.at()) + src@
                + self.bytes().skip(self.at() + src@.len()),
    {
        let mut cur = self;
        let mut i: usize = 0;
        while i < src.len()
            invariant
                i <= src@.len(),
                cur.pos == self.pos,
                cur.pos + src@.len() <= cur.buf@.len(),
                cur.buf@.len() <= usize::MAX,
                cur.buf@.len() == self.bytes().len(),
                forall|k: int| 0 <= k < cur.pos ==> cur.buf@[k] == self.bytes()[k],
                forall|k: int| 0 <= k < i ==> cur.buf@[cur.pos + k] == src@[k],
                forall|k: int| cur.pos + i <= k < cur.buf@.len() ==> cur.buf@[k] == self.bytes()[k],
            decreases src@.len() - i,
        {
            let b = src[i];
            cur.buf.set(cur.pos + i, b);
            i = i + 1;
        }
        cur.pos = cur.pos + src.len();
        cur
    }

    /// Write a 16-bit value as two little-endian bytes and advance past
    /// them.
    pub fn write_u16(self, n: u16) -> (r: Self)
        requires
            self.wf(),
            self.at() + 2 <= self.bytes().len(),
        ensures
            r.wf(),
            r.at() == self.at() + 2,
            r.bytes().len() == self.bytes().len(),
            r.bytes() =~= self.bytes().subrange(0, self.at()) + u16_le(n)
                + self.bytes().skip(self.at() + 2),
    {
        let b = u16_to_bytes(n);
        self.write(b.as_slice())
    }

    /// Write a signed 16-bit value as two little-endian bytes and advance
    /// past them.
    pub fn write_i16(self, n: i16) -> (r: Self)
        requires
            self.wf(),
            self.at() + 2 <= self.bytes().len(),
        ensures
            r.wf(),
            r.at() == self.at() + 2,
            r.bytes().len() == self.bytes().len(),
            r.bytes() =~= self.bytes().subrange(0, self.at()) + i16_le(n)
                + self.bytes().skip(self.at() + 2),
    {
        let b = i16_to_bytes(n);
        self.write(b.as_slice())
    }

    /// Write a 64-bit value as eight little-endian bytes and advance past
    /// them.
    pub fn write_u64(self, n: u64) -> (r: Self)
        requires
            self.wf(),
            self.at() + 8 <= self.bytes().len(),
        ensures
            r.wf(),
            r.at() == self.at() + 8,
            r.bytes().len() == self.bytes().len(),
            r.bytes() =~= self.bytes().subrange(0, self.at()) + u64_le(n)
                + self.bytes().skip(self.at() + 8),
    {
        let b = u64_to_bytes(n);
        self.write(b.as_slice())
    }

    /// Write a machine-word value as eight little-endian bytes and advance
    /// past them.
    pub fn write_usize(self, n: usize) -> (r: Self)
        requires
            self.wf(),
            self.at() + 8 <= self.bytes().len(),
            n <= u64::MAX,
        ensures
            r.wf(),
            r.at() == self.at() + 8,
            r.bytes().len() == self.bytes().len(),
            r.bytes() =~= self.bytes().subrange(0, self.at()) + u64_le(n as u64)
                + self.bytes().skip(self.at() + 8),
    {
        self.write_u64(n as u64)
    }
}

} // verus!
