use vstd::prelude::*;
use vstd::utf8::{decode_utf8, valid_utf8};

use crate::error::WadError;

verus! {

/// `width` bytes starting at `off` lie within `b`.
pub open spec fn in_bounds(b: Seq<u8>, off: int, width: int) -> bool {
    0 <= off && off + width <= b.len()
}

/// Unsigned little-endian 16-bit value of the two bytes at `off`.
pub open spec fn le_u16(b: Seq<u8>, off: int) -> int {
    b[off] + 256 * b[off + 1]
}

/// Signed (two's complement) little-endian 16-bit value of the two bytes at `off`.
pub open spec fn le_i16(b: Seq<u8>, off: int) -> int {
    let u = le_u16(b, off);
    if u < 0x8000 {
        u
    } else {
        u - 0x10000
    }
}

/// Unsigned little-endian 32-bit value of the four bytes at `off`.
pub open spec fn le_u32(b: Seq<u8>, off: int) -> int {
    le_u16(b, off) + 0x10000 * le_u16(b, off + 2)
}

/// `s` without its trailing zero bytes.
pub open spec fn trim_zeros(s: Seq<u8>) -> Seq<u8>
    decreases s.len(),
{
    if s.len() > 0 && s.last() == 0 {
        trim_zeros(s.drop_last())
    } else {
        s
    }
}

/// The zero-padded text field of `width` bytes at `off`, with its padding removed.
pub open spec fn padded_field(b: Seq<u8>, off: int, width: int) -> Seq<u8> {
    trim_zeros(b.subrange(off, off + width))
}

/// A text field decodes when it is in bounds and its trimmed bytes are UTF-8.
pub open spec fn text_ok(b: Seq<u8>, off: int, width: int) -> bool {
    in_bounds(b, off, width) && valid_utf8(padded_field(b, off, width))
}

/// The error a text read reports when `text_ok` fails.
pub open spec fn text_error(b: Seq<u8>, off: int, width: int) -> WadError {
    if in_bounds(b, off, width) {
        WadError::InvalidEncoding
    } else {
        WadError::Truncated
    }
}

/// The characters of a text field that decodes.
pub open spec fn text_of(b: Seq<u8>, off: int, width: int) -> Seq<char> {
    decode_utf8(padded_field(b, off, width))
}

pub open spec fn spec_read_u16(b: Seq<u8>, off: int) -> Result<u16, WadError> {
    if in_bounds(b, off, 2) {
        Ok(le_u16(b, off) as u16)
    } else {
        Err(WadError::Truncated)
    }
}

pub open spec fn spec_read_i16(b: Seq<u8>, off: int) -> Result<i16, WadError> {
    if in_bounds(b, off, 2) {
        Ok(le_i16(b, off) as i16)
    } else {
        Err(WadError::Truncated)
    }
}

pub open spec fn spec_read_u32(b: Seq<u8>, off: int) -> Result<usize, WadError> {
    if in_bounds(b, off, 4) {
        Ok(le_u32(b, off) as usize)
    } else {
        Err(WadError::Truncated)
    }
}

/// Whether `width` bytes at `offset` fit in `bytes`, without overflow.
pub fn fits(bytes: &[u8], offset: usize, width: usize) -> (r: bool)
    ensures
        r == in_bounds(bytes@, offset as int, width as int),
{
    offset <= bytes.len() && width <= bytes.len() - offset
}

/// The two bytes at `offset` as an unsigned little-endian value; the caller
/// has checked the bounds.
pub fn u16_at(bytes: &[u8], offset: usize) -> (r: u16)
    requires
        in_bounds(bytes@, offset as int, 2),
    ensures
        r == le_u16(bytes@, offset as int),
{
    bytes[offset] as u16 + 256 * (bytes[offset + 1] as u16)
}

/// The two bytes at `offset` as a signed little-endian value; the caller
/// has checked the bounds.
pub fn i16_at(bytes: &[u8], offset: usize) -> (r: i16)
    requires
        in_bounds(bytes@, offset as int, 2),
    ensures
        r == le_i16(bytes@, offset as int),
{
    let u = u16_at(bytes, offset);
    if u < 0x8000 {
        u as i16
    } else {
        (u as i32 - 0x10000) as i16
    }
}

/// The four bytes at `offset` as an unsigned little-endian value; the caller
/// has checked the bounds.
pub fn u32_at(bytes: &[u8], offset: usize) -> (r: usize)
    requires
        in_bounds(bytes@, offset as int, 4),
    ensures
        r == le_u32(bytes@, offset as int),
{
    let len = bytes.len();
    assert(offset + 4 <= len);
    let lo = u16_at(bytes, offset) as usize;
    let hi = u16_at(bytes, offset + 2) as usize;
    lo + 0x10000 * hi
}

/// Reads an unsigned 16-bit little-endian value at an absolute offset.
pub fn read_u16(bytes: &[u8], offset: usize) -> (r: Result<u16, WadError>)
    ensures
        r == spec_read_u16(bytes@, offset as int),
{
    if fits(bytes, offset, 2) {
        Ok(u16_at(bytes, offset))
    } else {
        Err(WadError::Truncated)
    }
}

/// Reads a signed 16-bit little-endian value at an absolute offset.
pub fn read_i16(bytes: &[u8], offset: usize) -> (r: Result<i16, WadError>)
    ensures
        r == spec_read_i16(bytes@, offset as int),
{
    if fits(bytes, offset, 2) {
        Ok(i16_at(bytes, offset))
    } else {
        Err(WadError::Truncated)
    }
}

/// Reads an unsigned 32-bit little-endian value at an absolute offset,
/// widened to `usize`.
pub fn read_u32(bytes: &[u8], offset: usize) -> (r: Result<usize, WadError>)
    ensures
        r == spec_read_u32(bytes@, offset as int),
{
    if fits(bytes, offset, 4) {
        Ok(u32_at(bytes, offset))
    } else {
        Err(WadError::Truncated)
    }
}

/// Relies on std's `String::from_utf8`: it succeeds exactly on valid UTF-8
/// and then holds the characters those bytes encode.
#[verifier::external_body]
fn string_from_utf8(v: Vec<u8>) -> (r: Option<String>)
    ensures
        r is Some <==> valid_utf8(v@),
        r matches Some(s) ==> s@ == decode_utf8(v@),
{
    String::from_utf8(v).ok()
}

/// Reads a zero-padded text field of `width` bytes at an absolute offset and
/// drops its trailing zero bytes.
pub fn read_text(bytes: &[u8], offset: usize, width: usize) -> (r: Result<String, WadError>)
    ensures
        r is Ok <==> text_ok(bytes@, offset as int, width as int),
        r matches Ok(s) ==> s@ == text_of(bytes@, offset as int, width as int),
        r matches Err(e) ==> e == text_error(bytes@, offset as int, width as int),
{
    if !fits(bytes, offset, width) {
        return Err(WadError::Truncated);
    }
    let ghost field = bytes@.subrange(offset as int, offset + width);
    assert(field.subrange(0, width as int) =~= field);
    let mut n: usize = width;
    while n > 0 && bytes[offset + n - 1] == 0
        invariant
            n <= width,
            offset + width <= bytes.len(),
            field == bytes@.subrange(offset as int, offset + width),
            trim_zeros(field) == trim_zeros(field.subrange(0, n as int)),
        decreases n,
    {
        proof {
            let s = field.subrange(0, n as int);
            assert(s.drop_last() =~= field.subrange(0, n - 1));
        }
        n = n - 1;
    }
    proof {
        let s = field.subrange(0, n as int);
        assert(trim_zeros(s) == s);
    }
    let mut v: Vec<u8> = Vec::new();
    let mut i: usize = 0;
    while i < n
        invariant
            i <= n,
            n <= width,
            offset + width <= bytes.len(),
            v@ =~= bytes@.subrange(offset as int, offset + i),
        decreases n - i,
    {
        v.push(bytes[offset + i]);
        i = i + 1;
    }
    proof {
        assert(v@ =~= field.subrange(0, n as int));
    }
    match string_from_utf8(v) {
        Some(s) => Ok(s),
        None => Err(WadError::InvalidEncoding),
    }
}

} // verus!
