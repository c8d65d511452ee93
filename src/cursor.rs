//! A forward-only reader of little-endian integers over a byte slice.
use vstd::prelude::*;
use crate::format::{FormatError, le_value, pow256, read_le, lemma_le_value_bound, lemma_pow256_mono, lemma_pow256_values, lemma_le_value_one};

verus! {

/// A position in an immutable byte source that only moves forward.
pub struct ByteCursor<'a> {
    data: &'a [u8],
    pos: usize,
}

impl<'a> ByteCursor<'a> {
    /// The whole byte source.
    pub closed spec fn bytes(&self) -> Seq<u8> {
        self.data@
    }

    /// The index of the next byte to read.
    pub closed spec fn position(&self) -> int {
        self.pos as int
    }

    pub open spec fn wf(&self) -> bool {
        0 <= self.position() <= self.bytes().len()
    }

    /// A cursor at the start of `data`.
    pub fn new(data: &'a [u8]) -> (r: ByteCursor<'a>)
        ensures
            r.wf(),
            r.bytes() == data@,
            r.position() == 0,
    {
        ByteCursor { data, pos: 0 }
    }

    /// The index of the next byte to read.
    pub fn pos(&self) -> (r: usize)
        ensures
            r as int == self.position(),
    {
        self.pos
    }

    /// The number of bytes not yet read.
    pub fn remaining(&self) -> (r: usize)
        requires
            self.wf(),
        ensures
            r == self.bytes().len() - self.position(),
    {
        self.data.len() - self.pos
    }

    /// Reads `width` bytes as a little-endian unsigned integer and moves past
    /// them; fails at the end of the input.
    pub fn read_uint_le(&mut self, width: usize) -> (r: Result<u128, FormatError>)
        requires
            old(self).wf(),
            width <= 14,
        ensures
            final(self).wf(),
            final(self).bytes() == old(self).bytes(),
            match read_le(old(self).bytes(), old(self).position(), width as nat) {
                Ok((v, q)) => r matches Ok(x) && x as nat == v && final(self).position() == q,
                Err(e) => r == Err::<u128, FormatError>(e),
            },
    {
        if width > self.data.len() - self.pos {
            return Err(FormatError::UnexpectedEndOfInput);
        }
        let ghost s = self.data@;
        let ghost p = self.pos as int;
        let mut acc: u128 = 0;
        let mut i: usize = width;
        while i > 0
            invariant
                i <= width <= 14,
                p + width <= s.len(),
                s == self.data@,
                s.len() == self.data.len(),
                p == self.pos,
                acc as nat == le_value(s.subrange(p + i, p + width)),
            decreases i,
        {
            let ghost tail = s.subrange(p + i, p + width);
            let ghost ext = s.subrange(p + i - 1, p + width);
            assert(ext.drop_first() =~= tail);
            proof {
                lemma_le_value_bound(tail);
                lemma_pow256_mono(tail.len(), 13);
                lemma_pow256_values();
            }
            let b = self.data[self.pos + (i - 1)];
            acc = acc * 256 + b as u128;
            i = i - 1;
        }
        assert(s.subrange(p, p + width) =~= s.subrange(p + 0, p + width));
        self.pos = self.pos + width;
        Ok(acc)
    }

    /// Reads one byte.
    pub fn read_u8(&mut self) -> (r: Result<u8, FormatError>)
        requires
            old(self).wf(),
        ensures
            final(self).wf(),
            final(self).bytes() == old(self).bytes(),
            if old(self).position() < old(self).bytes().len() {
                r == Ok::<u8, FormatError>(old(self).bytes()[old(self).position()])
                    && final(self).position() == old(self).position() + 1
            } else {
                r == Err::<u8, FormatError>(FormatError::UnexpectedEndOfInput)
            },
    {
        let v = self.read_uint_le(1)?;
        proof {
            lemma_le_value_one(self.bytes().subrange(old(self).position(), old(self).position() + 1));
        }
        Ok(v as u8)
    }

    /// Reads a little-endian 16-bit integer.
    pub fn read_u16_le(&mut self) -> (r: Result<u16, FormatError>)
        requires
            old(self).wf(),
        ensures
            final(self).wf(),
            final(self).bytes() == old(self).bytes(),
            match read_le(old(self).bytes(), old(self).position(), 2) {
                Ok((v, q)) => r matches Ok(x) && x as nat == v && final(self).position() == q,
                Err(e) => r == Err::<u16, FormatError>(e),
            },
    {
        let v = self.read_uint_le(2)?;
        proof {
            lemma_le_value_bound(self.bytes().subrange(old(self).position(), old(self).position() + 2));
            lemma_pow256_values();
        }
        Ok(v as u16)
    }

    /// Reads a little-endian 32-bit integer.
    pub fn read_u32_le(&mut self) -> (r: Result<u32, FormatError>)
        requires
            old(self).wf(),
        ensures
            final(self).wf(),
            final(self).bytes() == old(self).bytes(),
            match read_le(old(self).bytes(), old(self).position(), 4) {
                Ok((v, q)) => r matches Ok(x) && x as nat == v && final(self).position() == q,
                Err(e) => r == Err::<u32, FormatError>(e),
            },
    {
        let v = self.read_uint_le(4)?;
        proof {
            lemma_le_value_bound(self.bytes().subrange(old(self).position(), old(self).position() + 4));
            lemma_pow256_values();
        }
        Ok(v as u32)
    }

    /// Reads a little-endian integer of `width` bytes, at most eight.
    pub fn read_u64_le(&mut self, width: usize) -> (r: Result<u64, FormatError>)
        requires
            old(self).wf(),
            1 <= width <= 8,
        ensures
            final(self).wf(),
            final(self).bytes() == old(self).bytes(),
            match read_le(old(self).bytes(), old(self).position(), width as nat) {
                Ok((v, q)) => r matches Ok(x) && x as nat == v && final(self).position() == q,
                Err(e) => r == Err::<u64, FormatError>(e),
            },
    {
        let v = self.read_uint_le(width)?;
        proof {
            lemma_le_value_bound(
                self.bytes().subrange(old(self).position(), old(self).position() + width),
            );
            lemma_pow256_mono(width as nat, 8);
            lemma_pow256_values();
        }
        Ok(v as u64)
    }
}

} // verus!
