//! Byte sources: the interface the codec reads through, and a source that
//! holds its bytes in memory.

use vstd::prelude::*;
use crate::io::IoError;
use crate::bytes::conversions::{spec_u8_to_i8, u8_to_i8};
use crate::bytes::endian::{
    as_signed, i16_from_be_bytes, i16_from_le_bytes, i32_from_be_bytes, i32_from_le_bytes,
    i32_from_le_bytes_24, spec_be_u16, spec_be_u32, spec_le_u16, spec_le_u24, spec_le_u32,
    spec_le_u64, u16_from_be_bytes, u16_from_le_bytes, u32_from_be_bytes, u32_from_le_bytes,
    u64_from_le_bytes,
};

verus! {

/// What a byte source still has to give: the bytes it has not handed out,
/// in order, and how many of them it is willing to hand out.
pub struct Stream {
    pub bytes: Seq<u8>,
    /// Negative when the reader has been moved past its end.
    pub allowance: int,
}

impl Stream {
    /// Whether a read of `n` bytes succeeds.
    pub open spec fn admits(self, n: int) -> bool {
        n <= self.allowance
    }

    /// The stream after a successful read of `n` bytes.
    pub open spec fn after(self, n: int) -> Stream {
        Stream { bytes: self.bytes.skip(n), allowance: self.allowance - n }
    }
}

/// Reading `a` bytes and then `b` leaves a source as reading `a + b` does.
pub proof fn lemma_after_after(s: Stream, a: int, b: int)
    requires
        0 <= a,
        0 <= b,
        a + b <= s.bytes.len(),
    ensures
        s.after(a).after(b) == s.after(a + b),
{
    assert(s.bytes.skip(a).skip(b) =~= s.bytes.skip(a + b));
}

/// How a read that asks for `n` bytes takes a source from `pre` to `post`:
/// it succeeds exactly when `pre` admits it and then consumes the first `n`
/// bytes; a read that fails consumes nothing.
pub open spec fn read_effect(pre: Stream, post: Stream, n: int, ok: bool) -> bool {
    &&& ok <==> pre.admits(n)
    &&& ok ==> post == pre.after(n)
    &&& !ok ==> post == pre
}

/// A read of `n` bytes that hands out `value` when it succeeds and reports
/// the end of the stream when it does not.
pub open spec fn read_yields<T>(pre: Stream, post: Stream, n: int, r: Result<T, IoError>, value: T) -> bool {
    &&& read_effect(pre, post, n, r is Ok)
    &&& r matches Ok(v) ==> v == value
    &&& r matches Err(e) ==> e == IoError::UnexpectedEof
}

/// A source of bytes that are read in order, each exactly once.
///
/// A read hands out exactly the bytes asked for or fails; nothing is ever
/// delivered in part, and a read that fails leaves the source as it was.
pub trait LgReader: Sized {
    /// What the source still has to give.
    spec fn stream(&self) -> Stream;

    /// A reader never promises more bytes than its source holds.
    proof fn lemma_allowance_within_bytes(&self)
        ensures
            self.stream().allowance <= self.stream().bytes.len(),
    ;

    /// Overwrites the whole of `buffer` with the next bytes.
    fn read_into(&mut self, buffer: &mut Vec<u8>) -> (r: Result<(), IoError>)
        ensures
            read_yields(old(self).stream(), final(self).stream(), old(buffer)@.len() as int, r, ()),
            r is Ok ==> final(buffer)@ == old(self).stream().bytes.take(old(buffer)@.len() as int),
            r is Err ==> final(buffer)@ == old(buffer)@,
    ;

    /// Hands out the next `n` bytes.
    fn read_next_bytes(&mut self, n: usize) -> (r: Result<Vec<u8>, IoError>)
        ensures
            read_effect(old(self).stream(), final(self).stream(), n as int, r is Ok),
            r matches Ok(v) ==> v@ == old(self).stream().bytes.take(n as int),
            r matches Err(e) ==> e == IoError::UnexpectedEof,
    ;

    /// Passes over the next `n` bytes.
    fn skip_next_bytes(&mut self, n: usize) -> (r: Result<(), IoError>)
        ensures
            read_yields(old(self).stream(), final(self).stream(), n as int, r, ()),
    ;

    /// Hands out the next `n` bytes.
    fn read_exact_n(&mut self, n: usize) -> (r: Result<Vec<u8>, IoError>)
        ensures
            read_effect(old(self).stream(), final(self).stream(), n as int, r is Ok),
            r matches Ok(v) ==> v@ == old(self).stream().bytes.take(n as int),
            r matches Err(e) ==> e == IoError::UnexpectedEof,
    {
        self.read_next_bytes(n)
    }

    fn read_u8(&mut self) -> (r: Result<u8, IoError>)
        ensures
            read_yields(old(self).stream(), final(self).stream(), 1, r, old(self).stream().bytes[0]),
    {
        proof {
            old(self).lemma_allowance_within_bytes();
        }
        let b = self.read_exact_n(1)?;
        Ok(b[0])
    }

    fn read_le_u16(&mut self) -> (r: Result<u16, IoError>)
        ensures
            read_yields(
                old(self).stream(),
                final(self).stream(),
                2,
                r,
                spec_le_u16(old(self).stream().bytes) as u16,
            ),
    {
        proof {
            old(self).lemma_allowance_within_bytes();
        }
        let b = self.read_exact_n(2)?;
        Ok(u16_from_le_bytes([b[0], b[1]]))
    }

    fn read_le_u32(&mut self) -> (r: Result<u32, IoError>)
        ensures
            read_yields(
                old(self).stream(),
                final(self).stream(),
                4,
                r,
                spec_le_u32(old(self).stream().bytes) as u32,
            ),
    {
        proof {
            old(self).lemma_allowance_within_bytes();
        }
        let b = self.read_exact_n(4)?;
        Ok(u32_from_le_bytes([b[0], b[1], b[2], b[3]]))
    }

    fn read_le_u64(&mut self) -> (r: Result<u64, IoError>)
        ensures
            read_yields(
                old(self).stream(),
                final(self).stream(),
                8,
                r,
                spec_le_u64(old(self).stream().bytes) as u64,
            ),
    {
        proof {
            old(self).lemma_allowance_within_bytes();
        }
        let b = self.read_exact_n(8)?;
        Ok(u64_from_le_bytes([b[0], b[1], b[2], b[3], b[4], b[5], b[6], b[7]]))
    }

    /// Reads one stored byte and removes its bias of 128.
    fn read_le_i8(&mut self) -> (r: Result<i8, IoError>)
        ensures
            read_yields(
                old(self).stream(),
                final(self).stream(),
                1,
                r,
                spec_u8_to_i8(old(self).stream().bytes[0]),
            ),
    {
        proof {
            old(self).lemma_allowance_within_bytes();
        }
        let b = self.read_exact_n(1)?;
        Ok(u8_to_i8(b[0]))
    }

    fn read_le_i16(&mut self) -> (r: Result<i16, IoError>)
        ensures
            read_yields(
                old(self).stream(),
                final(self).stream(),
                2,
                r,
                as_signed(spec_le_u16(old(self).stream().bytes), 0x1_0000) as i16,
            ),
    {
        proof {
            old(self).lemma_allowance_within_bytes();
        }
        let b = self.read_exact_n(2)?;
        Ok(i16_from_le_bytes([b[0], b[1]]))
    }

    fn read_le_i32(&mut self) -> (r: Result<i32, IoError>)
        ensures
            read_yields(
                old(self).stream(),
                final(self).stream(),
                4,
                r,
                as_signed(spec_le_u32(old(self).stream().bytes), 0x1_0000_0000) as i32,
            ),
    {
        proof {
            old(self).lemma_allowance_within_bytes();
        }
        let b = self.read_exact_n(4)?;
        Ok(i32_from_le_bytes([b[0], b[1], b[2], b[3]]))
    }

    /// Reads a signed 24-bit number and widens it to 32 bits.
    fn read_le_i32_24(&mut self) -> (r: Result<i32, IoError>)
        ensures
            read_yields(
                old(self).stream(),
                final(self).stream(),
                3,
                r,
                as_signed(spec_le_u24(old(self).stream().bytes), 0x100_0000) as i32,
            ),
    {
        proof {
            old(self).lemma_allowance_within_bytes();
        }
        let b = self.read_exact_n(3)?;
        Ok(i32_from_le_bytes_24([b[0], b[1], b[2]]))
    }

    fn read_be_u16(&mut self) -> (r: Result<u16, IoError>)
        ensures
            read_yields(
                old(self).stream(),
                final(self).stream(),
                2,
                r,
                spec_be_u16(old(self).stream().bytes) as u16,
            ),
    {
        proof {
            old(self).lemma_allowance_within_bytes();
        }
        let b = self.read_exact_n(2)?;
        Ok(u16_from_be_bytes([b[0], b[1]]))
    }

    fn read_be_u32(&mut self) -> (r: Result<u32, IoError>)
        ensures
            read_yields(
                old(self).stream(),
                final(self).stream(),
                4,
                r,
                spec_be_u32(old(self).stream().bytes) as u32,
            ),
    {
        proof {
            old(self).lemma_allowance_within_bytes();
        }
        let b = self.read_exact_n(4)?;
        Ok(u32_from_be_bytes([b[0], b[1], b[2], b[3]]))
    }

    fn read_be_i16(&mut self) -> (r: Result<i16, IoError>)
        ensures
            read_yields(
                old(self).stream(),
                final(self).stream(),
                2,
                r,
                as_signed(spec_be_u16(old(self).stream().bytes), 0x1_0000) as i16,
            ),
    {
        proof {
            old(self).lemma_allowance_within_bytes();
        }
        let b = self.read_exact_n(2)?;
        Ok(i16_from_be_bytes([b[0], b[1]]))
    }

    fn read_be_i32(&mut self) -> (r: Result<i32, IoError>)
        ensures
            read_yields(
                old(self).stream(),
                final(self).stream(),
                4,
                r,
                as_signed(spec_be_u32(old(self).stream().bytes), 0x1_0000_0000) as i32,
            ),
    {
        proof {
            old(self).lemma_allowance_within_bytes();
        }
        let b = self.read_exact_n(4)?;
        Ok(i32_from_be_bytes([b[0], b[1], b[2], b[3]]))
    }
}

/// A byte source that holds all of its bytes in memory.
pub struct ByteReader {
    data: Vec<u8>,
    pos: usize,
}

impl ByteReader {
    #[verifier::type_invariant]
    spec fn inv(self) -> bool {
        self.pos <= self.data@.len()
    }

    /// All the bytes of the source, those already handed out included.
    pub closed spec fn bytes(&self) -> Seq<u8> {
        self.data@
    }

    /// The number of bytes already handed out.
    pub closed spec fn spec_position(&self) -> int {
        self.pos as int
    }

    /// A source that will hand out `data` from its first byte on.
    pub fn new(data: Vec<u8>) -> (r: Self)
        ensures
            r.bytes() == data@,
            r.spec_position() == 0,
            r.stream() == (Stream { bytes: data@, allowance: data@.len() as int }),
    {
        assert(data@.skip(0) =~= data@);
        ByteReader { data, pos: 0 }
    }

    /// The number of bytes already handed out.
    pub fn position(&self) -> (p: usize)
        ensures
            p as int == self.spec_position(),
    {
        self.pos
    }
}

impl LgReader for ByteReader {
    closed spec fn stream(&self) -> Stream {
        Stream {
            bytes: self.data@.skip(self.pos as int),
            allowance: self.data@.skip(self.pos as int).len() as int,
        }
    }

    proof fn lemma_allowance_within_bytes(&self) {
    }

    fn read_into(&mut self, buffer: &mut Vec<u8>) -> (r: Result<(), IoError>) {
        let n = buffer.len();
        match self.read_next_bytes(n) {
            Ok(v) => {
                *buffer = v;
                Ok(())
            },
            Err(e) => Err(e),
        }
    }

    fn read_next_bytes(&mut self, n: usize) -> (r: Result<Vec<u8>, IoError>) {
        proof {
            use_type_invariant(&*self);
        }
        if n > self.data.len() - self.pos {
            return Err(IoError::UnexpectedEof);
        }
        let start: usize = self.pos;
        let mut out: Vec<u8> = Vec::with_capacity(n);
        let mut i: usize = 0;
        while i < n
            invariant
                i <= n,
                start + n <= self.data.len(),
                start == self.pos,
                self.data@ == old(self).data@,
                out@ == self.data@.subrange(start as int, start + i),
            decreases n - i,
        {
            out.push(self.data[start + i]);
            i += 1;
            assert(out@ =~= self.data@.subrange(start as int, start + i));
        }
        assert(out@ =~= old(self).stream().bytes.take(n as int));
        self.pos += n;
        assert(self.stream().bytes =~= old(self).stream().bytes.skip(n as int));
        Ok(out)
    }

    fn skip_next_bytes(&mut self, n: usize) -> (r: Result<(), IoError>) {
        proof {
            use_type_invariant(&*self);
        }
        if n > self.data.len() - self.pos {
            return Err(IoError::UnexpectedEof);
        }
        self.pos += n;
        assert(self.stream().bytes =~= old(self).stream().bytes.skip(n as int));
        Ok(())
    }
}

} // verus!
