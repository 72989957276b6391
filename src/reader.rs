use vstd::prelude::*;

use crate::bytes::{fits, in_bounds, le_u32, read_text, read_u32, text_of, text_ok};
use crate::data::{Header, LumpInfo, ReadFromBytes};
use crate::error::WadError;

verus! {

/// Bytes in the fixed header at the start of an archive.
pub const HEADER_SIZE: usize = 12;

/// Bytes in one directory entry.
pub const ENTRY_SIZE: usize = 16;

/// Bytes in a lump name.
pub const NAME_SIZE: usize = 8;

/// The header decodes: all twelve bytes are present and the tag is text.
pub open spec fn header_ok(b: Seq<u8>) -> bool {
    in_bounds(b, 0, 12) && text_ok(b, 0, 4)
}

pub open spec fn header_error(b: Seq<u8>) -> WadError {
    if in_bounds(b, 0, 12) {
        WadError::InvalidEncoding
    } else {
        WadError::Truncated
    }
}

pub open spec fn header_matches(h: Header, b: Seq<u8>) -> bool {
    &&& h.wad_type@ == text_of(b, 0, 4)
    &&& h.num_lumps == le_u32(b, 4)
    &&& h.info_table_offset == le_u32(b, 8)
}

/// Byte offset of directory entry `i` when the directory starts at `base`.
pub open spec fn entry_offset(base: int, i: int) -> int {
    base + 16 * i
}

/// The entry at `off` decodes: all sixteen bytes are present and its name is text.
pub open spec fn entry_ok(b: Seq<u8>, off: int) -> bool {
    in_bounds(b, off, 16) && text_ok(b, off + 8, 8)
}

pub open spec fn entry_error(b: Seq<u8>, off: int) -> WadError {
    if in_bounds(b, off, 16) {
        WadError::InvalidEncoding
    } else {
        WadError::Truncated
    }
}

pub open spec fn lump_matches(l: LumpInfo, b: Seq<u8>, off: int) -> bool {
    &&& l.offset == le_u32(b, off)
    &&& l.size == le_u32(b, off + 4)
    &&& l.name@ == text_of(b, off + 8, 8)
}

/// All `n` entries of the directory at `base` decode.
pub open spec fn directory_ok(b: Seq<u8>, base: int, n: int) -> bool {
    forall|i: int| 0 <= i < n ==> entry_ok(b, #[trigger] entry_offset(base, i))
}

/// `e` is the error of the first entry of the directory at `base` that does not decode.
pub open spec fn directory_error(b: Seq<u8>, base: int, n: int, e: WadError) -> bool {
    exists|k: int|
        0 <= k < n && directory_ok(b, base, k) && !entry_ok(b, #[trigger] entry_offset(base, k))
            && e == entry_error(b, entry_offset(base, k))
}

/// `d` holds, in order, the `n` entries of the directory at `base`.
pub open spec fn directory_matches(d: Seq<LumpInfo>, b: Seq<u8>, base: int, n: int) -> bool {
    d.len() == n && forall|i: int| 0 <= i < n ==> lump_matches(#[trigger] d[i], b, entry_offset(base, i))
}

/// The whole archive decodes: header and every directory entry.
pub open spec fn archive_ok(b: Seq<u8>) -> bool {
    header_ok(b) && directory_ok(b, le_u32(b, 8), le_u32(b, 4))
}

/// `e` is the error that decoding the archive `b` stops at: the header's,
/// or else that of the first directory entry that does not decode.
pub open spec fn archive_error(b: Seq<u8>, e: WadError) -> bool {
    if !header_ok(b) {
        e == header_error(b)
    } else {
        directory_error(b, le_u32(b, 8), le_u32(b, 4), e)
    }
}

/// Entry `i` is the first in `d` called `name`.
pub open spec fn first_named(d: Seq<LumpInfo>, name: Seq<char>, i: int) -> bool {
    0 <= i < d.len() && d[i].name@ == name && forall|j: int| 0 <= j < i ==> #[trigger] d[j].name@ != name
}

/// No entry of `d` is called `name`.
pub open spec fn no_lump_named(d: Seq<LumpInfo>, name: Seq<char>) -> bool {
    forall|j: int| 0 <= j < d.len() ==> #[trigger] d[j].name@ != name
}

/// What reading lump `idx` as a table of `T` records gives.
pub open spec fn spec_read_lump<T: ReadFromBytes>(b: Seq<u8>, d: Seq<LumpInfo>, idx: int) -> Result<Seq<T>, WadError> {
    if idx < 0 || idx >= d.len() {
        Err(WadError::OutOfRange)
    } else {
        let l = d[idx];
        let w = T::spec_width() as int;
        if (l.size as int) % w != 0 {
            Err(WadError::MalformedRecordSize)
        } else if l.size > 0 && !in_bounds(b, l.offset as int, l.size as int) {
            Err(WadError::Truncated)
        } else {
            Ok(Seq::new(((l.size as int) / w) as nat, |i: int| T::spec_decode(b, l.offset + i * w)))
        }
    }
}

pub open spec fn view_result<T>(r: Result<Vec<T>, WadError>) -> Result<Seq<T>, WadError> {
    match r {
        Ok(v) => Ok(v@),
        Err(e) => Err(e),
    }
}

/// A decoded archive: its bytes, header and directory.
pub struct Reader {
    pub data: Vec<u8>,
    pub header: Header,
    pub directory: Vec<LumpInfo>,
}

impl Reader {
    /// Decodes the header and directory of the archive held in `data`.
    pub fn new(data: Vec<u8>) -> (r: Result<Reader, WadError>)
        ensures
            r is Ok <==> archive_ok(data@),
            r matches Ok(rd) ==> {
                &&& rd.data@ == data@
                &&& header_matches(rd.header, data@)
                &&& directory_matches(rd.directory@, data@, le_u32(data@, 8), le_u32(data@, 4))
            },
            r matches Err(e) ==> archive_error(data@, e),
    {
        let header = match Reader::read_header(data.as_slice()) {
            Ok(h) => h,
            Err(e) => return Err(e),
        };
        let directory = match Reader::read_directory(data.as_slice(), &header) {
            Ok(d) => d,
            Err(e) => return Err(e),
        };
        Ok(Reader { data, header, directory })
    }

    /// Decodes the twelve-byte header at the start of `bytes`.
    pub fn read_header(bytes: &[u8]) -> (r: Result<Header, WadError>)
        ensures
            r is Ok <==> header_ok(bytes@),
            r matches Ok(h) ==> header_matches(h, bytes@),
            r matches Err(e) ==> e == header_error(bytes@),
    {
        if !fits(bytes, 0, HEADER_SIZE) {
            return Err(WadError::Truncated);
        }
        let wad_type = match read_text(bytes, 0, 4) {
            Ok(s) => s,
            Err(e) => return Err(e),
        };
        let num_lumps = match read_u32(bytes, 4) {
            Ok(v) => v,
            Err(e) => return Err(e),
        };
        let info_table_offset = match read_u32(bytes, 8) {
            Ok(v) => v,
            Err(e) => return Err(e),
        };
        Ok(Header { wad_type, num_lumps, info_table_offset })
    }

    /// Decodes the `header.num_lumps` entries of the directory, sixteen bytes
    /// apart from `header.info_table_offset` on.
    pub fn read_directory(bytes: &[u8], header: &Header) -> (r: Result<Vec<LumpInfo>, WadError>)
        ensures
            r is Ok <==> directory_ok(bytes@, header.info_table_offset as int, header.num_lumps as int),
            r matches Ok(d) ==> directory_matches(
                d@,
                bytes@,
                header.info_table_offset as int,
                header.num_lumps as int,
            ),
            r matches Err(e) ==> directory_error(
                bytes@,
                header.info_table_offset as int,
                header.num_lumps as int,
                e,
            ),
    {
        let ghost b = bytes@;
        let ghost base = header.info_table_offset as int;
        let mut directory: Vec<LumpInfo> = Vec::new();
        let len = bytes.len();
        let mut offset: usize = header.info_table_offset;
        let mut i: usize = 0;
        while i < header.num_lumps
            invariant
                i <= header.num_lumps,
                len == b.len(),
                b == bytes@,
                base == header.info_table_offset,
                offset == entry_offset(base, i as int),
                directory_ok(b, base, i as int),
                directory_matches(directory@, b, base, i as int),
            decreases header.num_lumps - i,
        {
            if !fits(bytes, offset, ENTRY_SIZE) {
                assert(!entry_ok(b, entry_offset(base, i as int)));
                return Err(WadError::Truncated);
            }
            let lump_offset = read_u32(bytes, offset).unwrap();
            let size = read_u32(bytes, offset + 4).unwrap();
            let name = match read_text(bytes, offset + 8, NAME_SIZE) {
                Ok(s) => s,
                Err(e) => {
                    assert(!entry_ok(b, entry_offset(base, i as int)));
                    return Err(e);
                },
            };
            directory.push(LumpInfo { offset: lump_offset, size, name });
            proof {
                assert(entry_ok(b, entry_offset(base, i as int)));
                assert forall|k: int| 0 <= k < i + 1 implies entry_ok(b, #[trigger] entry_offset(base, k)) by {
                    if k < i {
                        assert(entry_ok(b, entry_offset(base, k)));
                    }
                }
                assert forall|k: int| 0 <= k < i + 1 implies lump_matches(
                    #[trigger] directory@[k],
                    b,
                    entry_offset(base, k),
                ) by {}
            }
            i = i + 1;
            offset = offset + ENTRY_SIZE;
        }
        Ok(directory)
    }

    /// Index of the first directory entry whose name is `lump_name`.
    pub fn get_lump_index(&self, lump_name: &str) -> (r: Option<usize>)
        ensures
            r matches Some(i) ==> first_named(self.directory@, lump_name@, i as int),
            r is None ==> no_lump_named(self.directory@, lump_name@),
    {
        let wanted: String = lump_name.to_owned();
        let mut i: usize = 0;
        while i < self.directory.len()
            invariant
                i <= self.directory@.len(),
                wanted@ == lump_name@,
                forall|j: int| 0 <= j < i ==> #[trigger] self.directory@[j].name@ != lump_name@,
            decreases self.directory@.len() - i,
        {
            if self.directory[i].name == wanted {
                return Some(i);
            }
            i = i + 1;
        }
        None
    }

    /// Reads lump `lump_index` as a table of fixed-width `T` records.
    pub fn read_lump<T: ReadFromBytes>(&self, lump_index: usize) -> (r: Result<Vec<T>, WadError>)
        ensures
            view_result(r) == spec_read_lump::<T>(self.data@, self.directory@, lump_index as int),
    {
        if lump_index >= self.directory.len() {
            return Err(WadError::OutOfRange);
        }
        let lump_offset = self.directory[lump_index].offset;
        let size = self.directory[lump_index].size;
        let width = T::width();
        if size % width != 0 {
            return Err(WadError::MalformedRecordSize);
        }
        if size > 0 && !fits(self.data.as_slice(), lump_offset, size) {
            return Err(WadError::Truncated);
        }
        let count = size / width;
        let ghost b = self.data@;
        let ghost w = width as int;
        proof {
            vstd::arithmetic::div_mod::lemma_fundamental_div_mod(size as int, w);
        }
        let data_len = self.data.len();
        let mut records: Vec<T> = Vec::new();
        let mut offset: usize = lump_offset;
        let mut i: usize = 0;
        while i < count
            invariant
                i <= count,
                b == self.data@,
                data_len == b.len(),
                w == width,
                w == T::spec_width(),
                w > 0,
                count * w == size,
                size == 0 || lump_offset + size <= b.len(),
                offset == lump_offset + i * w,
                records@.len() == i,
                forall|k: int| 0 <= k < i ==> #[trigger] records@[k] == T::spec_decode(b, lump_offset + k * w),
            decreases count - i,
        {
            proof {
                assert((i + 1) * w <= count * w) by (nonlinear_arith)
                    requires i + 1 <= count, w > 0;
                assert((i + 1) * w == i * w + w) by (nonlinear_arith);
            }
            let rec = T::read_at(self.data.as_slice(), offset);
            records.push(rec);
            i = i + 1;
            offset = offset + width;
        }
        assert(records@ =~= Seq::new(count as nat, |k: int| T::spec_decode(b, lump_offset + k * w)));
        Ok(records)
    }
}

} // verus!
