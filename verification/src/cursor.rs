//! A bounds-checked reader over a byte buffer held in memory.

use vstd::prelude::*;
use crate::error::{eof, DecodeError, SeekFrom};

verus! {

/// What a decoding step makes of a buffer from a given offset: the value it
/// yields or the error it stops with, and the offset it leaves behind.
pub struct Parsed<T> {
    pub value: Result<T, DecodeError>,
    pub end: int,
}

/// `r` is `value`: the same error, or a success whose model is the value
/// that `value` holds.
pub open spec fn yields<T: View>(
    r: Result<T, DecodeError>,
    value: Result<T::V, DecodeError>,
) -> bool {
    match r {
        Ok(v) => value == Ok::<T::V, DecodeError>(v@),
        Err(e) => value == Err::<T::V, DecodeError>(e),
    }
}

/// `r`, returned with the cursor left at `end`, is what `p` describes.
pub open spec fn decodes_as<T: View>(
    r: Result<T, DecodeError>,
    end: int,
    p: Parsed<T::V>,
) -> bool {
    end == p.end && yields(r, p.value)
}

/// The same failure, seen as the failure of an enclosing step.
pub open spec fn failed<A, B>(p: Parsed<A>) -> Parsed<B> {
    Parsed { value: Err(p.value->Err_0), end: p.end }
}

/// Reading `n` bytes at offset `at`: the bytes, and the offset moved past
/// them; or, where fewer than `n` remain, an error and the offset unmoved.
pub open spec fn bytes_at(buf: Seq<u8>, at: int, n: int) -> Parsed<Seq<u8>> {
    if n <= buf.len() - at {
        Parsed { value: Ok(buf.subrange(at, at + n)), end: at + n }
    } else {
        Parsed { value: Err(eof(at, n, buf.len() as int)), end: at }
    }
}

/// Passing over `n` bytes at offset `at` without looking at them.
pub open spec fn skip_at(buf: Seq<u8>, at: int, n: int) -> Parsed<()> {
    if n <= buf.len() - at {
        Parsed { value: Ok(()), end: at + n }
    } else {
        Parsed { value: Err(eof(at, n, buf.len() as int)), end: at }
    }
}

/// The offset that a seek from offset `at` asks for.
pub open spec fn seek_target(at: int, to: SeekFrom) -> int {
    match to {
        SeekFrom::Start(offset) => offset as int,
        SeekFrom::Current(delta) => at + delta,
    }
}

/// A byte buffer and a read offset into it. The offset never passes the end
/// of the buffer, and no operation changes the bytes.
pub struct ByteCursor {
    buf: Vec<u8>,
    pos: usize,
}

impl ByteCursor {
    #[verifier::type_invariant]
    spec fn in_bounds(self) -> bool {
        self.pos <= self.buf.len()
    }

    /// The bytes of the buffer.
    pub closed spec fn bytes(&self) -> Seq<u8> {
        self.buf@
    }

    /// The read offset.
    pub closed spec fn offset(&self) -> nat {
        self.pos as nat
    }

    /// A cursor at the start of `buf`.
    pub fn new(buf: Vec<u8>) -> (cursor: ByteCursor)
        ensures
            cursor.bytes() == buf@,
            cursor.offset() == 0,
    {
        ByteCursor { buf, pos: 0 }
    }

    /// The length of the buffer.
    pub fn len(&self) -> (n: usize)
        ensures
            n == self.bytes().len(),
    {
        self.buf.len()
    }

    /// The read offset.
    pub fn position(&self) -> (n: usize)
        ensures
            n == self.offset(),
            n <= self.bytes().len(),
    {
        proof {
            use_type_invariant(self);
        }
        self.pos
    }

    /// The number of bytes from the read offset to the end of the buffer.
    pub fn remaining(&self) -> (n: usize)
        ensures
            n == self.bytes().len() - self.offset(),
    {
        proof {
            use_type_invariant(self);
        }
        self.buf.len() - self.pos
    }

    /// Reads the next `n` bytes and moves past them. Where fewer than `n`
    /// remain, nothing is read and the offset stays.
    pub fn read_bytes(&mut self, n: usize) -> (r: Result<Vec<u8>, DecodeError>)
        ensures
            final(self).bytes() == old(self).bytes(),
            decodes_as(
                r,
                final(self).offset() as int,
                bytes_at(old(self).bytes(), old(self).offset() as int, n as int),
            ),
    {
        proof {
            use_type_invariant(&*self);
        }
        let left = self.buf.len() - self.pos;
        if n > left {
            return Err(
                DecodeError::UnexpectedEof { offset: self.pos, needed: n, available: left },
            );
        }
        let start = self.pos;
        let mut out: Vec<u8> = Vec::new();
        let mut i: usize = 0;
        while i < n
            invariant
                i <= n,
                start + n <= self.buf.len(),
                out@ == self.buf@.subrange(start as int, start + i),
            decreases n - i,
        {
            out.push(self.buf[start + i]);
            i = i + 1;
        }
        self.pos = start + n;
        Ok(out)
    }

    /// Moves past the next `n` bytes without reading them. Where fewer than
    /// `n` remain, the offset stays.
    pub fn skip(&mut self, n: usize) -> (r: Result<(), DecodeError>)
        ensures
            final(self).bytes() == old(self).bytes(),
            decodes_as(
                r,
                final(self).offset() as int,
                skip_at(old(self).bytes(), old(self).offset() as int, n as int),
            ),
    {
        proof {
            use_type_invariant(&*self);
        }
        let left = self.buf.len() - self.pos;
        if n > left {
            return Err(
                DecodeError::UnexpectedEof { offset: self.pos, needed: n, available: left },
            );
        }
        self.pos = self.pos + n;
        Ok(())
    }

    /// Moves the offset to the one asked for and returns it. A target before
    /// the start or after the end of the buffer is refused, and the offset
    /// stays.
    pub fn seek(&mut self, to: SeekFrom) -> (r: Result<usize, DecodeError>)
        ensures
            final(self).bytes() == old(self).bytes(),
            match r {
                Ok(at) => {
                    &&& at == seek_target(old(self).offset() as int, to)
                    &&& at <= old(self).bytes().len()
                    &&& final(self).offset() == at
                },
                Err(e) => {
                    &&& !(0 <= seek_target(old(self).offset() as int, to)
                        <= old(self).bytes().len())
                    &&& e == (DecodeError::OutOfBounds {
                        request: to,
                        position: old(self).offset() as usize,
                        length: old(self).bytes().len() as usize,
                    })
                    &&& final(self).offset() == old(self).offset()
                },
            },
    {
        proof {
            use_type_invariant(&*self);
        }
        let target: i128 = match to {
            SeekFrom::Start(offset) => offset as i128,
            SeekFrom::Current(delta) => self.pos as i128 + delta as i128,
        };
        if 0 <= target && target <= self.buf.len() as i128 {
            self.pos = target as usize;
            Ok(self.pos)
        } else {
            Err(
                DecodeError::OutOfBounds {
                    request: to,
                    position: self.pos,
                    length: self.buf.len(),
                },
            )
        }
    }
}

} // verus!
