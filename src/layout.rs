use vstd::prelude::*;
use vstd::utf8::{encode_utf8, is_ascii_chars};

use crate::bytes::{le_i16, le_u16, le_u32, padded_field, text_ok, text_of, trim_zeros};
use crate::data::{LumpInfo, ReadFromBytes, Vertex};
use crate::reader::{archive_ok, directory_matches, entry_offset, entry_ok, header_ok, spec_read_lump};

verus! {

/// Little-endian bytes of an unsigned 16-bit value.
pub open spec fn u16_le(v: int) -> Seq<u8> {
    seq![(v % 256) as u8, (v / 256) as u8]
}

/// Little-endian bytes of an unsigned 32-bit value.
pub open spec fn u32_le(v: int) -> Seq<u8> {
    u16_le(v % 0x10000) + u16_le(v / 0x10000)
}

/// Little-endian two's complement bytes of a signed 16-bit value.
pub open spec fn i16_le(v: int) -> Seq<u8> {
    u16_le(if v < 0 { v + 0x10000 } else { v })
}

/// A text field: the UTF-8 bytes of `text` followed by zero padding up to `width`.
pub open spec fn padded(text: Seq<char>, width: nat) -> Seq<u8> {
    encode_utf8(text) + Seq::new((width - encode_utf8(text).len()) as nat, |i: int| 0u8)
}

/// `text` can stand in a field of `width` bytes and read back unchanged:
/// ASCII, short enough, and not ending in a zero character.
pub open spec fn fits_field(text: Seq<char>, width: nat) -> bool {
    is_ascii_chars(text) && text.len() <= width && (text.len() > 0 ==> text.last() != '\0')
}

/// An archive of one lump: header with tag `tag`, one directory entry at
/// byte 12 naming `name` with the given offset and size, and one vertex
/// record at byte 28.
pub open spec fn one_vertex_archive(tag: Seq<char>, name: Seq<char>, offset: u32, size: u32, v: Vertex) -> Seq<u8> {
    padded(tag, 4) + u32_le(1) + u32_le(12) + u32_le(offset as int) + u32_le(size as int) + padded(name, 8)
        + i16_le(v.x as int) + i16_le(v.y as int)
}

proof fn lemma_u16_le(b: Seq<u8>, off: int, v: int)
    requires
        0 <= v < 0x10000,
        0 <= off,
        off + 2 <= b.len(),
        b.subrange(off, off + 2) == u16_le(v),
    ensures
        le_u16(b, off) == v,
{
    vstd::arithmetic::div_mod::lemma_fundamental_div_mod(v, 256);
    assert(b[off] == b.subrange(off, off + 2)[0]);
    assert(b[off + 1] == b.subrange(off, off + 2)[1]);
}

proof fn lemma_u32_le(b: Seq<u8>, off: int, v: int)
    requires
        0 <= v < 0x1_0000_0000,
        0 <= off,
        off + 4 <= b.len(),
        b.subrange(off, off + 4) == u32_le(v),
    ensures
        le_u32(b, off) == v,
{
    vstd::arithmetic::div_mod::lemma_fundamental_div_mod(v, 0x10000);
    let s = b.subrange(off, off + 4);
    assert(b.subrange(off, off + 2) =~= s.subrange(0, 2));
    assert(s.subrange(0, 2) =~= u16_le(v % 0x10000));
    assert(b.subrange(off + 2, off + 4) =~= s.subrange(2, 4));
    assert(s.subrange(2, 4) =~= u16_le(v / 0x10000));
    lemma_u16_le(b, off, v % 0x10000);
    lemma_u16_le(b, off + 2, v / 0x10000);
}

proof fn lemma_i16_le(b: Seq<u8>, off: int, v: int)
    requires
        -0x8000 <= v < 0x8000,
        0 <= off,
        off + 2 <= b.len(),
        b.subrange(off, off + 2) == i16_le(v),
    ensures
        le_i16(b, off) == v,
{
    lemma_u16_le(b, off, if v < 0 { v + 0x10000 } else { v });
}

proof fn lemma_trim_padding(s: Seq<u8>, k: nat)
    requires
        s.len() > 0 ==> s.last() != 0,
    ensures
        trim_zeros(s + Seq::new(k, |i: int| 0u8)) == s,
    decreases k,
{
    let t = s + Seq::new(k, |i: int| 0u8);
    if k == 0 {
        assert(t =~= s);
    } else {
        assert(t.drop_last() =~= s + Seq::new((k - 1) as nat, |i: int| 0u8));
        lemma_trim_padding(s, (k - 1) as nat);
    }
}

proof fn lemma_text_field(b: Seq<u8>, off: int, width: nat, text: Seq<char>)
    requires
        fits_field(text, width),
        0 <= off,
        off + width <= b.len(),
        b.subrange(off, off + width) == padded(text, width),
    ensures
        text_ok(b, off, width as int),
        text_of(b, off, width as int) == text,
{
    vstd::utf8::is_ascii_chars_encode_utf8(text);
    vstd::utf8::encode_utf8_valid_utf8(text);
    vstd::utf8::encode_utf8_decode_utf8(text);
    let e = encode_utf8(text);
    if text.len() > 0 {
        let n = text.len() - 1;
        assert(e[n] == text[n] as u8);
        assert(text[n] != '\0');
        assert(e.last() != 0);
    }
    lemma_trim_padding(e, (width - e.len()) as nat);
    assert(padded_field(b, off, width as int) == e);
}

/// Decoding an archive of one lump holding one vertex gives back the header
/// fields, the directory entry's offset, size and name, and the vertex; when
/// the entry points at the vertex record, reading that lump as vertices
/// yields exactly that one vertex.
pub proof fn lemma_one_vertex_round_trip(tag: Seq<char>, name: Seq<char>, offset: u32, size: u32, v: Vertex, d: Seq<LumpInfo>)
    requires
        fits_field(tag, 4),
        fits_field(name, 8),
        directory_matches(d, one_vertex_archive(tag, name, offset, size, v), 12, 1),
    ensures
        archive_ok(one_vertex_archive(tag, name, offset, size, v)),
        text_of(one_vertex_archive(tag, name, offset, size, v), 0, 4) == tag,
        le_u32(one_vertex_archive(tag, name, offset, size, v), 4) == 1,
        le_u32(one_vertex_archive(tag, name, offset, size, v), 8) == 12,
        d[0].offset == offset,
        d[0].size == size,
        d[0].name@ == name,
        Vertex::spec_decode(one_vertex_archive(tag, name, offset, size, v), 28) == v,
        offset == 28 && size == 4 ==> spec_read_lump::<Vertex>(one_vertex_archive(tag, name, offset, size, v), d, 0)
            == Ok::<Seq<Vertex>, crate::error::WadError>(seq![v]),
{
    vstd::utf8::is_ascii_chars_encode_utf8(tag);
    vstd::utf8::is_ascii_chars_encode_utf8(name);
    let b = one_vertex_archive(tag, name, offset, size, v);
    let h = padded(tag, 4);
    let n = padded(name, 8);
    assert(h.len() == 4);
    assert(n.len() == 8);
    assert(b.len() == 32);
    assert(b.subrange(0, 4) =~= h);
    assert(b.subrange(4, 8) =~= u32_le(1));
    assert(b.subrange(8, 12) =~= u32_le(12));
    assert(b.subrange(12, 16) =~= u32_le(offset as int));
    assert(b.subrange(16, 20) =~= u32_le(size as int));
    assert(b.subrange(20, 28) =~= n);
    assert(b.subrange(28, 30) =~= i16_le(v.x as int));
    assert(b.subrange(30, 32) =~= i16_le(v.y as int));
    lemma_text_field(b, 0, 4, tag);
    lemma_u32_le(b, 4, 1);
    lemma_u32_le(b, 8, 12);
    lemma_u32_le(b, 12, offset as int);
    lemma_u32_le(b, 16, size as int);
    lemma_text_field(b, 20, 8, name);
    lemma_i16_le(b, 28, v.x as int);
    lemma_i16_le(b, 30, v.y as int);
    assert(entry_offset(12, 0) == 12);
    assert(entry_ok(b, entry_offset(12, 0)));
    assert(header_ok(b));
    assert(Vertex::spec_decode(b, 28) == v);
    if offset == 28 && size == 4 {
        assert(spec_read_lump::<Vertex>(b, d, 0)->Ok_0 =~= seq![v]);
    }
}

} // verus!
