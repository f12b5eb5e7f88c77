//! A sequential, seekable reader over an in-memory byte source.
//!
//! All fixed-width reads and skips are bounds-checked: consuming more bytes
//! than remain fails with [`ParseError::Truncated`] and leaves the cursor
//! where it was.  The position may be placed past the end of the data (as a
//! seek on a file would allow); every read from such a position fails.

use vstd::prelude::*;

use crate::formats::{be16, be32, le16, ParseError};

verus! {

pub struct ByteCursor<'a> {
    data: &'a [u8],
    pos: usize,
}

impl<'a> ByteCursor<'a> {
    /// The bytes this cursor walks over.
    pub closed spec fn bytes(&self) -> Seq<u8> {
        self.data@
    }

    /// The current position, counted from the start of the data.
    pub closed spec fn cur(&self) -> int {
        self.pos as int
    }

    pub fn new(data: &'a [u8]) -> (c: Self)
        ensures
            c.bytes() == data@,
            c.cur() == 0,
    {
        ByteCursor { data, pos: 0 }
    }

    pub fn position(&self) -> (p: usize)
        ensures
            p as int == self.cur(),
    {
        self.pos
    }

    /// Move to an absolute offset; the offset may lie past the end.
    pub fn set_pos(&mut self, p: usize)
        ensures
            final(self).bytes() == old(self).bytes(),
            final(self).cur() == p as int,
    {
        self.pos = p;
    }

    /// True when `n` more bytes can be consumed from the current position.
    fn has(&self, n: usize) -> (r: bool)
        ensures
            r == (self.cur() + n <= self.bytes().len()),
            r ==> self.bytes().len() <= usize::MAX,
    {
        self.pos <= self.data.len() && n <= self.data.len() - self.pos
    }

    /// Consume `n` bytes without inspecting them.
    pub fn skip(&mut self, n: usize) -> (r: Result<(), ParseError>)
        ensures
            final(self).bytes() == old(self).bytes(),
            match r {
                Ok(()) => {
                    &&& old(self).cur() + n <= old(self).bytes().len()
                    &&& final(self).cur() == old(self).cur() + n
                },
                Err(e) => {
                    &&& e == ParseError::Truncated
                    &&& old(self).cur() + n > old(self).bytes().len()
                    &&& final(self).cur() == old(self).cur()
                },
            },
    {
        if self.has(n) {
            self.pos = self.pos + n;
            Ok(())
        } else {
            Err(ParseError::Truncated)
        }
    }

    pub fn read_u8(&mut self) -> (r: Result<u8, ParseError>)
        ensures
            final(self).bytes() == old(self).bytes(),
            match r {
                Ok(b) => {
                    &&& old(self).cur() + 1 <= old(self).bytes().len()
                    &&& b == old(self).bytes()[old(self).cur()]
                    &&& final(self).cur() == old(self).cur() + 1
                },
                Err(e) => {
                    &&& e == ParseError::Truncated
                    &&& old(self).cur() + 1 > old(self).bytes().len()
                    &&& final(self).cur() == old(self).cur()
                },
            },
    {
        if self.has(1) {
            let b = self.data[self.pos];
            self.pos = self.pos + 1;
            Ok(b)
        } else {
            Err(ParseError::Truncated)
        }
    }

    pub fn read_u16_be(&mut self) -> (r: Result<u16, ParseError>)
        ensures
            final(self).bytes() == old(self).bytes(),
            match r {
                Ok(v) => {
                    &&& old(self).cur() + 2 <= old(self).bytes().len()
                    &&& v as int == be16(old(self).bytes(), old(self).cur())
                    &&& final(self).cur() == old(self).cur() + 2
                },
                Err(e) => {
                    &&& e == ParseError::Truncated
                    &&& old(self).cur() + 2 > old(self).bytes().len()
                    &&& final(self).cur() == old(self).cur()
                },
            },
    {
        if self.has(2) {
            let b0 = self.data[self.pos];
            let b1 = self.data[self.pos + 1];
            self.pos = self.pos + 2;
            Ok((b0 as u16) * 0x100 + (b1 as u16))
        } else {
            Err(ParseError::Truncated)
        }
    }

    pub fn read_u16_le(&mut self) -> (r: Result<u16, ParseError>)
        ensures
            final(self).bytes() == old(self).bytes(),
            match r {
                Ok(v) => {
                    &&& old(self).cur() + 2 <= old(self).bytes().len()
                    &&& v as int == le16(old(self).bytes(), old(self).cur())
                    &&& final(self).cur() == old(self).cur() + 2
                },
                Err(e) => {
                    &&& e == ParseError::Truncated
                    &&& old(self).cur() + 2 > old(self).bytes().len()
                    &&& final(self).cur() == old(self).cur()
                },
            },
    {
        if self.has(2) {
            let b0 = self.data[self.pos];
            let b1 = self.data[self.pos + 1];
            self.pos = self.pos + 2;
            Ok((b0 as u16) + (b1 as u16) * 0x100)
        } else {
            Err(ParseError::Truncated)
        }
    }

    pub fn read_u32_be(&mut self) -> (r: Result<u32, ParseError>)
        ensures
            final(self).bytes() == old(self).bytes(),
            match r {
                Ok(v) => {
                    &&& old(self).cur() + 4 <= old(self).bytes().len()
                    &&& v as int == be32(old(self).bytes(), old(self).cur())
                    &&& final(self).cur() == old(self).cur() + 4
                },
                Err(e) => {
                    &&& e == ParseError::Truncated
                    &&& old(self).cur() + 4 > old(self).bytes().len()
                    &&& final(self).cur() == old(self).cur()
                },
            },
    {
        if self.has(4) {
            let b0 = self.data[self.pos];
            let b1 = self.data[self.pos + 1];
            let b2 = self.data[self.pos + 2];
            let b3 = self.data[self.pos + 3];
            self.pos = self.pos + 4;
            Ok((b0 as u32) * 0x1000000 + (b1 as u32) * 0x10000 + (b2 as u32) * 0x100 + (b3 as u32))
        } else {
            Err(ParseError::Truncated)
        }
    }

    /// Read a fixed block of four bytes, as a chunk type code is read.
    pub fn read4(&mut self) -> (r: Result<[u8; 4], ParseError>)
        ensures
            final(self).bytes() == old(self).bytes(),
            match r {
                Ok(b) => {
                    &&& old(self).cur() + 4 <= old(self).bytes().len()
                    &&& b@ =~= old(self).bytes().subrange(old(self).cur(), old(self).cur() + 4)
                    &&& final(self).cur() == old(self).cur() + 4
                },
                Err(e) => {
                    &&& e == ParseError::Truncated
                    &&& old(self).cur() + 4 > old(self).bytes().len()
                    &&& final(self).cur() == old(self).cur()
                },
            },
    {
        if self.has(4) {
            let mut b: [u8; 4] = [0u8, 0u8, 0u8, 0u8];
            b[0] = self.data[self.pos];
            b[1] = self.data[self.pos + 1];
            b[2] = self.data[self.pos + 2];
            b[3] = self.data[self.pos + 3];
            self.pos = self.pos + 4;
            Ok(b)
        } else {
            Err(ParseError::Truncated)
        }
    }
}

} // verus!
