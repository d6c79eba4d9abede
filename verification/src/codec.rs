//! The primitive fields of a resource: little-endian integers, alignment of
//! records, and text.

use vstd::prelude::*;
use vstd::arithmetic::div_mod::{
    lemma_fundamental_div_mod, lemma_mod_bound, lemma_mod_multiples_basic,
};
use crate::cursor::{bytes_at, decodes_as, failed, ByteCursor, Parsed};
use crate::error::DecodeError;

verus! {

/// The longest text payload, in bytes, that any length field can declare.
pub const MAX_TEXT_LEN: usize = 0xFFFF;

/// The 16-bit integer that two bytes stand for, low byte first.
pub open spec fn u16_from_le(bytes: Seq<u8>) -> u16
    recommends
        bytes.len() == 2,
{
    (bytes[0] + 0x100 * bytes[1]) as u16
}

/// The two bytes that stand for a 16-bit integer, low byte first.
pub open spec fn u16_to_le(value: u16) -> Seq<u8> {
    seq![(value % 0x100) as u8, (value / 0x100) as u8]
}

/// The 32-bit integer that four bytes stand for, low byte first.
pub open spec fn u32_from_le(bytes: Seq<u8>) -> u32
    recommends
        bytes.len() == 4,
{
    (bytes[0] + 0x100 * bytes[1] + 0x1_0000 * bytes[2] + 0x100_0000 * bytes[3]) as u32
}

/// The four bytes that stand for a 32-bit integer, low byte first.
pub open spec fn u32_to_le(value: u32) -> Seq<u8> {
    seq![
        (value % 0x100) as u8,
        (value / 0x100 % 0x100) as u8,
        (value / 0x1_0000 % 0x100) as u8,
        (value / 0x100_0000) as u8,
    ]
}

/// Two bytes are the bytes of the 16-bit integer that they stand for.
pub proof fn lemma_u16_bytes_round_trip(bytes: Seq<u8>)
    requires
        bytes.len() == 2,
    ensures
        u16_to_le(u16_from_le(bytes)) == bytes,
{
    assert(u16_to_le(u16_from_le(bytes)) =~= bytes);
}

/// A 16-bit integer is what its two bytes stand for.
pub proof fn lemma_u16_value_round_trip(value: u16)
    ensures
        u16_to_le(value).len() == 2,
        u16_from_le(u16_to_le(value)) == value,
{
}

/// Four bytes are the bytes of the 32-bit integer that they stand for.
pub proof fn lemma_u32_bytes_round_trip(bytes: Seq<u8>)
    requires
        bytes.len() == 4,
    ensures
        u32_to_le(u32_from_le(bytes)) == bytes,
{
    let value = u32_from_le(bytes);
    assert(value == bytes[0] + 0x100 * bytes[1] + 0x1_0000 * bytes[2] + 0x100_0000 * bytes[3]);
    assert(value % 0x100 == bytes[0]);
    assert(value / 0x100 % 0x100 == bytes[1]);
    assert(value / 0x1_0000 % 0x100 == bytes[2]);
    assert(value / 0x100_0000 == bytes[3]);
    assert(u32_to_le(value) =~= bytes);
}

/// A 32-bit integer is what its four bytes stand for.
pub proof fn lemma_u32_value_round_trip(value: u32)
    ensures
        u32_to_le(value).len() == 4,
        u32_from_le(u32_to_le(value)) == value,
{
}

/// An unsigned byte at offset `at`.
pub open spec fn u8_at(buf: Seq<u8>, at: int) -> Parsed<u8> {
    let raw = bytes_at(buf, at, 1);
    match raw.value {
        Ok(b) => Parsed { value: Ok(b[0]), end: raw.end },
        Err(_) => failed(raw),
    }
}

/// An unsigned 16-bit integer at offset `at`, low byte first.
pub open spec fn u16_le_at(buf: Seq<u8>, at: int) -> Parsed<u16> {
    let raw = bytes_at(buf, at, 2);
    match raw.value {
        Ok(b) => Parsed { value: Ok(u16_from_le(b)), end: raw.end },
        Err(_) => failed(raw),
    }
}

/// An unsigned 32-bit integer at offset `at`, low byte first.
pub open spec fn u32_le_at(buf: Seq<u8>, at: int) -> Parsed<u32> {
    let raw = bytes_at(buf, at, 4);
    match raw.value {
        Ok(b) => Parsed { value: Ok(u32_from_le(b)), end: raw.end },
        Err(_) => failed(raw),
    }
}

/// Reads one byte.
pub fn read_u8(cursor: &mut ByteCursor) -> (r: Result<u8, DecodeError>)
    ensures
        final(cursor).bytes() == old(cursor).bytes(),
        decodes_as(
            r,
            final(cursor).offset() as int,
            u8_at(old(cursor).bytes(), old(cursor).offset() as int),
        ),
{
    let raw = cursor.read_bytes(1)?;
    Ok(raw[0])
}

/// Reads two bytes as an unsigned integer, low byte first.
pub fn read_u16_le(cursor: &mut ByteCursor) -> (r: Result<u16, DecodeError>)
    ensures
        final(cursor).bytes() == old(cursor).bytes(),
        decodes_as(
            r,
            final(cursor).offset() as int,
            u16_le_at(old(cursor).bytes(), old(cursor).offset() as int),
        ),
{
    let raw = cursor.read_bytes(2)?;
    Ok(raw[0] as u16 + 0x100 * (raw[1] as u16))
}

/// Reads four bytes as an unsigned integer, low byte first.
pub fn read_u32_le(cursor: &mut ByteCursor) -> (r: Result<u32, DecodeError>)
    ensures
        final(cursor).bytes() == old(cursor).bytes(),
        decodes_as(
            r,
            final(cursor).offset() as int,
            u32_le_at(old(cursor).bytes(), old(cursor).offset() as int),
        ),
{
    let raw = cursor.read_bytes(4)?;
    Ok(
        raw[0] as u32 + 0x100 * (raw[1] as u32) + 0x1_0000 * (raw[2] as u32) + 0x100_0000 * (
        raw[3] as u32),
    )
}

/// `n` rounded up to the next multiple of `unit`.
pub open spec fn aligned(n: int, unit: int) -> int
    recommends
        unit > 0,
{
    if n % unit == 0 {
        n
    } else {
        n + unit - n % unit
    }
}

/// Rounding up reaches the least multiple of `unit` that is not below `n`,
/// and rounding that up again changes nothing.
pub proof fn lemma_aligned(n: int, unit: int)
    requires
        unit > 0,
    ensures
        aligned(n, unit) % unit == 0,
        n <= aligned(n, unit) < n + unit,
        aligned(aligned(n, unit), unit) == aligned(n, unit),
{
    lemma_mod_bound(n, unit);
    if n % unit != 0 {
        let q = n / unit;
        lemma_fundamental_div_mod(n, unit);
        assert(n + unit - n % unit == (q + 1) * unit) by (nonlinear_arith)
            requires
                n == unit * q + n % unit,
        ;
        lemma_mod_multiples_basic(q + 1, unit);
    }
}

/// The size of a record of `raw_len` bytes once it is padded to a multiple
/// of `unit`.
pub fn aligned_item_size(raw_len: usize, unit: usize) -> (size: usize)
    requires
        unit > 0,
        aligned(raw_len as int, unit as int) <= usize::MAX,
    ensures
        size == aligned(raw_len as int, unit as int),
        size % unit == 0,
        raw_len <= size < raw_len + unit,
        aligned(size as int, unit as int) == size,
{
    proof {
        lemma_aligned(raw_len as int, unit as int);
    }
    let over = raw_len % unit;
    if over == 0 {
        raw_len
    } else {
        raw_len + (unit - over)
    }
}

/// Every byte replaced by its bitwise complement.
pub open spec fn complement(bytes: Seq<u8>) -> Seq<u8> {
    bytes.map_values(|b: u8| !b)
}

/// Complementing twice gives back the bytes one started with.
pub proof fn lemma_complement_involution(bytes: Seq<u8>)
    ensures
        complement(complement(bytes)) == bytes,
{
    assert forall|i: int| 0 <= i < bytes.len() implies complement(complement(bytes))[i]
        == bytes[i] by {
        let b = bytes[i];
        assert(!(!b) == b) by (bit_vector);
    }
    assert(complement(complement(bytes)) =~= bytes);
}

/// Replaces every byte by its bitwise complement.
pub fn apply_complement(bytes: &mut Vec<u8>)
    ensures
        final(bytes)@ == complement(old(bytes)@),
{
    let mut i: usize = 0;
    while i < bytes.len()
        invariant
            i <= bytes.len(),
            bytes.len() == old(bytes).len(),
            forall|j: int| 0 <= j < i ==> bytes[j] == !old(bytes)[j],
            forall|j: int| i <= j < bytes.len() ==> bytes[j] == old(bytes)[j],
        decreases bytes.len() - i,
    {
        let b = bytes[i];
        bytes.set(i, !b);
        i = i + 1;
    }
    assert(bytes@ =~= complement(old(bytes)@));
}

/// The stored form of a text payload made readable: complemented where the
/// field is obfuscated, as it stands where it is not.
pub open spec fn clear(stored: Seq<u8>, obfuscated: bool) -> Seq<u8> {
    if obfuscated {
        complement(stored)
    } else {
        stored
    }
}

/// The text that the Shift_JIS decoder makes of `bytes`, malformed sequences
/// replaced and a leading byte-order mark obeyed.
pub uninterp spec fn shift_jis_text(bytes: Seq<u8>) -> Seq<char>;

/// No byte has its high bit set.
pub open spec fn is_ascii(bytes: Seq<u8>) -> bool {
    forall|i: int| 0 <= i < bytes.len() ==> bytes[i] < 0x80
}

/// Each byte as the character of the same code.
pub open spec fn ascii_text(bytes: Seq<u8>) -> Seq<char> {
    bytes.map_values(|b: u8| b as char)
}

/// The text that `bytes` stand for: their own characters where all of them
/// are ASCII, what the Shift_JIS decoder makes of them otherwise.
pub open spec fn text_of(bytes: Seq<u8>) -> Seq<char> {
    if is_ascii(bytes) {
        ascii_text(bytes)
    } else {
        shift_jis_text(bytes)
    }
}

/// Calls `encoding_rs::Encoding::decode` on `encoding_rs::SHIFT_JIS` and
/// keeps the text it returns. Trusted: the text is a function of the bytes
/// alone, named `shift_jis_text`, and input made of ASCII bytes only comes
/// back as the same characters. The decoder sizes its output buffer from the
/// input length and panics where that overflows; inputs within
/// `MAX_TEXT_LEN` stay far below that.
#[verifier::external_body]
fn shift_jis_decode(bytes: &Vec<u8>) -> (text: String)
    requires
        bytes@.len() <= MAX_TEXT_LEN,
    ensures
        text@ == shift_jis_text(bytes@),
        is_ascii(bytes@) ==> text@ == ascii_text(bytes@),
{
    let (text, _, _) = encoding_rs::SHIFT_JIS.decode(bytes);
    text.into_owned()
}

/// Decodes a stored text payload: undoes the obfuscation where there is one,
/// then reads the bytes as Shift_JIS. Malformed text is replaced, never
/// refused.
pub fn decode_text(raw: Vec<u8>, obfuscated: bool) -> (text: String)
    requires
        raw@.len() <= MAX_TEXT_LEN,
    ensures
        text@ == text_of(clear(raw@, obfuscated)),
{
    let mut bytes = raw;
    if obfuscated {
        apply_complement(&mut bytes);
    }
    shift_jis_decode(&bytes)
}

} // verus!
