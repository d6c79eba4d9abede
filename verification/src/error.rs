//! The ways a decode can fail.

use vstd::prelude::*;

verus! {

/// Where a seek is measured from.
#[derive(Debug, Clone, Copy, PartialEq, Eq, Structural)]
pub enum SeekFrom {
    /// An offset from the first byte of the buffer.
    Start(usize),
    /// A signed distance from the current offset.
    Current(i64),
}

/// A structural failure. Each one ends the decode that met it.
#[derive(Debug, Clone, Copy, PartialEq, Eq, Structural)]
pub enum DecodeError {
    /// A read or skip of `needed` bytes at `offset` found only `available`.
    UnexpectedEof { offset: usize, needed: usize, available: usize },
    /// A seek asked for an offset outside `0..=length`.
    OutOfBounds { request: SeekFrom, position: usize, length: usize },
    /// The buffer holds no occurrence of the marker that was looked for.
    MarkerNotFound,
    /// The reserved byte at `offset` holds `value`, not zero.
    InvalidReservedField { offset: usize, value: u8 },
}

/// The error of a read or skip of `needed` bytes at offset `at` in a buffer
/// of `len` bytes, fewer than `needed` of which lie at or after `at`.
pub open spec fn eof(at: int, needed: int, len: int) -> DecodeError {
    DecodeError::UnexpectedEof {
        offset: at as usize,
        needed: needed as usize,
        available: (len - at) as usize,
    }
}

} // verus!
