//! Byte sinks: the interface the codec writes through, and a sink that keeps
//! its bytes in memory.

use vstd::prelude::*;
use crate::bytes::conversions::{i8_to_u8, spec_i8_to_u8};
use crate::bytes::endian::{
    as_unsigned, i16_to_le_bytes, i32_to_le_bytes, i32_to_le_bytes_24, spec_u16_le_bytes,
    spec_u24_le_bytes, spec_u32_le_bytes, spec_u64_le_bytes, u16_to_le_bytes, u32_to_le_bytes,
    u64_to_le_bytes,
};
use crate::io::IoError;

verus! {

/// `bytes` after `data` was written over it from the offset `at` on. What
/// lies between the old end and `at` is filled with zeros.
pub open spec fn overwrite(bytes: Seq<u8>, at: int, data: Seq<u8>) -> Seq<u8> {
    Seq::new(
        if bytes.len() >= at + data.len() {
            bytes.len()
        } else {
            (at + data.len()) as nat
        },
        |i: int|
            if at <= i < at + data.len() {
                data[i - at]
            } else if i < bytes.len() {
                bytes[i]
            } else {
                0u8
            },
    )
}

/// What a byte sink holds: all the bytes it has taken, and the offset at
/// which the next write begins.
pub struct Sink {
    pub bytes: Seq<u8>,
    pub position: int,
}

impl Sink {
    /// Whether a write of `n` bytes succeeds: it must end at an offset that
    /// the machine can address.
    pub open spec fn admits(self, n: int) -> bool {
        self.position + n <= usize::MAX
    }

    /// The sink after `data` was written at its position.
    pub open spec fn put(self, data: Seq<u8>) -> Sink {
        Sink {
            bytes: overwrite(self.bytes, self.position, data),
            position: self.position + data.len(),
        }
    }

    /// The sink with its position moved to `position`.
    pub open spec fn at(self, position: int) -> Sink {
        Sink { bytes: self.bytes, position }
    }
}

/// How a write of `data` takes a sink from `pre` to `post`: it succeeds
/// exactly when `pre` admits it; a refused write changes nothing.
pub open spec fn write_effect(pre: Sink, post: Sink, data: Seq<u8>, ok: bool) -> bool {
    &&& ok <==> pre.admits(data.len() as int)
    &&& ok ==> post == pre.put(data)
    &&& !ok ==> post == pre
}

/// A write of `data` that reports the number of bytes it wrote.
pub open spec fn write_yields(pre: Sink, post: Sink, data: Seq<u8>, r: Result<usize, IoError>) -> bool {
    &&& write_effect(pre, post, data, r is Ok)
    &&& r matches Ok(n) ==> n == data.len()
    &&& r matches Err(e) ==> e == IoError::InvalidInput
}

/// A write of `data` that reports nothing but its success.
pub open spec fn write_done(pre: Sink, post: Sink, data: Seq<u8>, r: Result<(), IoError>) -> bool {
    &&& write_effect(pre, post, data, r is Ok)
    &&& r matches Err(e) ==> e == IoError::InvalidInput
}

/// Writing `b` directly behind `a` is writing `a` followed by `b`.
pub proof fn lemma_put_put(s: Sink, a: Seq<u8>, b: Seq<u8>)
    requires
        0 <= s.position,
    ensures
        s.put(a).put(b) == s.put(a + b),
{
    assert(s.put(a).put(b).bytes =~= s.put(a + b).bytes);
}

/// A sink of bytes that takes writes at a position which can be moved.
pub trait LgWriter: Sized {
    /// What the sink holds.
    spec fn sink(&self) -> Sink;

    /// The position of a sink is an offset that the machine can address.
    proof fn lemma_position_in_range(&self)
        ensures
            0 <= self.sink().position <= usize::MAX,
    ;

    /// Moves the position to `position`, counted from the start.
    fn go_to(&mut self, position: usize) -> (r: Result<usize, IoError>)
        ensures
            r == Ok::<usize, IoError>(position),
            final(self).sink() == old(self).sink().at(position as int),
    ;

    /// The offset at which the next write begins.
    fn stream_position(&mut self) -> (r: Result<usize, IoError>)
        ensures
            r matches Ok(p) && p == old(self).sink().position,
            final(self).sink() == old(self).sink(),
    ;

    /// Hands on what was written. Nothing that the sink holds changes.
    fn flush(&mut self) -> (r: Result<(), IoError>)
        ensures
            r is Ok,
            final(self).sink() == old(self).sink(),
    ;

    /// Writes all of `data` at the position and moves the position behind it.
    fn write_bytes(&mut self, data: &[u8]) -> (r: Result<usize, IoError>)
        ensures
            write_yields(old(self).sink(), final(self).sink(), data@, r),
    ;

    fn write_u8(&mut self, data: u8) -> (r: Result<usize, IoError>)
        ensures
            write_yields(old(self).sink(), final(self).sink(), seq![data], r),
    {
        let b: [u8; 1] = [data];
        assert(b@ =~= seq![data]);
        self.write_bytes(b.as_slice())
    }

    fn write_le_u16(&mut self, data: u16) -> (r: Result<usize, IoError>)
        ensures
            write_yields(old(self).sink(), final(self).sink(), spec_u16_le_bytes(data as int), r),
    {
        let b = u16_to_le_bytes(data);
        self.write_bytes(b.as_slice())
    }

    fn write_le_u32(&mut self, data: u32) -> (r: Result<usize, IoError>)
        ensures
            write_yields(old(self).sink(), final(self).sink(), spec_u32_le_bytes(data as int), r),
    {
        let b = u32_to_le_bytes(data);
        self.write_bytes(b.as_slice())
    }

    fn write_le_u64(&mut self, data: u64) -> (r: Result<usize, IoError>)
        ensures
            write_yields(old(self).sink(), final(self).sink(), spec_u64_le_bytes(data as int), r),
    {
        let b = u64_to_le_bytes(data);
        self.write_bytes(b.as_slice())
    }

    /// Writes one signed sample as a byte with a bias of 128.
    fn write_le_i8(&mut self, data: i8) -> (r: Result<usize, IoError>)
        ensures
            write_yields(old(self).sink(), final(self).sink(), seq![spec_i8_to_u8(data)], r),
    {
        let data = i8_to_u8(data);
        self.write_u8(data)
    }

    fn write_le_i16(&mut self, data: i16) -> (r: Result<usize, IoError>)
        ensures
            write_yields(
                old(self).sink(),
                final(self).sink(),
                spec_u16_le_bytes(as_unsigned(data as int, 0x1_0000)),
                r,
            ),
    {
        let b = i16_to_le_bytes(data);
        self.write_bytes(b.as_slice())
    }

    fn write_le_i32(&mut self, data: i32) -> (r: Result<usize, IoError>)
        ensures
            write_yields(
                old(self).sink(),
                final(self).sink(),
                spec_u32_le_bytes(as_unsigned(data as int, 0x1_0000_0000)),
                r,
            ),
    {
        let b = i32_to_le_bytes(data);
        self.write_bytes(b.as_slice())
    }

    /// Writes the three low bytes of `data`.
    fn write_le_i32_24(&mut self, data: i32) -> (r: Result<(), IoError>)
        ensures
            write_done(
                old(self).sink(),
                final(self).sink(),
                spec_u24_le_bytes(as_unsigned(data as int, 0x1_0000_0000)),
                r,
            ),
    {
        let b = i32_to_le_bytes_24(data);
        match self.write_bytes(b.as_slice()) {
            Ok(_) => Ok(()),
            Err(e) => Err(e),
        }
    }
}

/// A byte sink that keeps everything written to it in memory.
pub struct ByteWriter {
    data: Vec<u8>,
    pos: usize,
}

impl ByteWriter {
    /// An empty sink.
    pub fn new() -> (r: Self)
        ensures
            r.sink() == (Sink { bytes: Seq::empty(), position: 0 }),
    {
        ByteWriter { data: Vec::new(), pos: 0 }
    }

    /// Everything the sink has taken.
    pub fn into_inner(self) -> (data: Vec<u8>)
        ensures
            data@ == self.sink().bytes,
    {
        self.data
    }

    /// Everything the sink has taken.
    pub fn as_slice(&self) -> (data: &[u8])
        ensures
            data@ == self.sink().bytes,
    {
        self.data.as_slice()
    }
}

impl LgWriter for ByteWriter {
    closed spec fn sink(&self) -> Sink {
        Sink { bytes: self.data@, position: self.pos as int }
    }

    proof fn lemma_position_in_range(&self) {
    }

    fn go_to(&mut self, position: usize) -> (r: Result<usize, IoError>) {
        self.pos = position;
        Ok(position)
    }

    fn stream_position(&mut self) -> (r: Result<usize, IoError>) {
        Ok(self.pos)
    }

    fn flush(&mut self) -> (r: Result<(), IoError>) {
        Ok(())
    }

    fn write_bytes(&mut self, data: &[u8]) -> (r: Result<usize, IoError>) {
        let n: usize = data.len();
        let p: usize = self.pos;
        if n > usize::MAX - p {
            return Err(IoError::InvalidInput);
        }
        while self.data.len() < p
            invariant
                self.pos == p,
                old(self).data@.len() <= self.data@.len(),
                self.data@.len() <= p || self.data@.len() == old(self).data@.len(),
                forall|j: int| 0 <= j < old(self).data@.len() ==> self.data@[j] == old(self).data@[j],
                forall|j: int| old(self).data@.len() <= j < self.data@.len() ==> self.data@[j] == 0u8,
            decreases p - self.data@.len(),
        {
            self.data.push(0);
        }
        let ghost base = self.data@;
        let mut i: usize = 0;
        while i < n
            invariant
                i <= n,
                n == data@.len(),
                p + n <= usize::MAX,
                self.pos == p,
                p <= base.len(),
                self.data@.len() == (if base.len() >= p + i {
                    base.len()
                } else {
                    (p + i) as nat
                }),
                forall|j: int|
                    0 <= j < self.data@.len() ==> self.data@[j] == (if p <= j < p + i {
                        data@[j - p]
                    } else {
                        base[j]
                    }),
            decreases n - i,
        {
            let at: usize = p + i;
            if at < self.data.len() {
                self.data[at] = data[i];
            } else {
                self.data.push(data[i]);
            }
            i += 1;
        }
        self.pos = p + n;
        assert(self.data@ =~= overwrite(old(self).data@, p as int, data@));
        Ok(n)
    }
}

} // verus!
