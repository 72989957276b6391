use vstd::prelude::*;

use crate::bytes::{i16_at, in_bounds, le_i16, le_u16, u16_at};

verus! {

/// The archive header: type tag, number of lumps, byte offset of the directory.
#[derive(Debug, Clone)]
pub struct Header {
    pub wad_type: String,
    pub num_lumps: usize,
    pub info_table_offset: usize,
}

/// One directory entry: where a lump's bytes lie and what it is called.
#[derive(Debug, Clone)]
pub struct LumpInfo {
    pub offset: usize,
    pub size: usize,
    pub name: String,
}

/// The lumps that follow a map marker, in directory order.
#[allow(non_camel_case_types)]
#[derive(Debug, Clone, Copy, PartialEq, Eq, Structural)]
pub enum LumpIndices {
    THINGS,
    LINEDEFS,
    SIDEDEFS,
    VERTEXES,
    SEGS,
    SSECTORS,
    NODES,
    SECTORS,
    REJECT,
    BLOCKMAP,
}

impl LumpIndices {
    pub open spec fn spec_offset(self) -> nat {
        match self {
            LumpIndices::THINGS => 1,
            LumpIndices::LINEDEFS => 2,
            LumpIndices::SIDEDEFS => 3,
            LumpIndices::VERTEXES => 4,
            LumpIndices::SEGS => 5,
            LumpIndices::SSECTORS => 6,
            LumpIndices::NODES => 7,
            LumpIndices::SECTORS => 8,
            LumpIndices::REJECT => 9,
            LumpIndices::BLOCKMAP => 10,
        }
    }

    /// Position of this lump relative to the map marker.
    pub fn offset(self) -> (r: usize)
        ensures
            r == self.spec_offset(),
    {
        match self {
            LumpIndices::THINGS => 1,
            LumpIndices::LINEDEFS => 2,
            LumpIndices::SIDEDEFS => 3,
            LumpIndices::VERTEXES => 4,
            LumpIndices::SEGS => 5,
            LumpIndices::SSECTORS => 6,
            LumpIndices::NODES => 7,
            LumpIndices::SECTORS => 8,
            LumpIndices::REJECT => 9,
            LumpIndices::BLOCKMAP => 10,
        }
    }
}

#[derive(Debug, Clone, Copy, PartialEq, Eq, Structural)]
pub struct Vertex {
    pub x: i16,
    pub y: i16,
}

#[derive(Debug, Clone, Copy, PartialEq, Eq, Structural)]
pub struct Linedef {
    pub start_vertex_id: u16,
    pub end_vertex_id: u16,
    pub flags: u16,
    pub line_type: u16,
    pub sector_tag: u16,
    pub front_sidedef_id: u16,
    pub back_sidedef_id: u16,
}

#[derive(Debug, Clone, Copy, PartialEq, Eq, Structural)]
pub struct Point {
    pub x: i16,
    pub y: i16,
}

#[derive(Debug, Clone, Copy, PartialEq, Eq, Structural)]
pub struct Thing {
    pub position: Point,
    pub angle: i16,
    pub ed_type: i16,
    pub flags: i16,
}

#[derive(Debug, Clone, Copy, PartialEq, Eq, Structural)]
pub struct Seg {
    pub start_vertex_id: i16,
    pub end_vertex_id: i16,
    pub angle: i16,
    pub linedef_id: i16,
    pub direction: i16,
    pub offset: i16,
}

#[derive(Debug, Clone, Copy, PartialEq, Eq, Structural)]
pub struct BoundingBox {
    pub top: i16,
    pub bottom: i16,
    pub left: i16,
    pub right: i16,
}

/// A partition node: the line through `(x_partition, y_partition)` along
/// `(dx_partition, dy_partition)`, a bounding box per child, and two child
/// references whose top bit marks a leaf.
#[derive(Debug, Clone, Copy, PartialEq, Eq, Structural)]
pub struct Node {
    pub x_partition: i16,
    pub y_partition: i16,
    pub dx_partition: i16,
    pub dy_partition: i16,
    pub bbox_right: BoundingBox,
    pub bbox_left: BoundingBox,
    pub right_child_id: u16,
    pub left_child_id: u16,
}

/// A leaf: `seg_count` segs starting at `first_seg_id` in the seg table.
#[derive(Debug, Clone, Copy, PartialEq, Eq, Structural)]
pub struct SubSector {
    pub seg_count: i16,
    pub first_seg_id: i16,
}

/// A record with a fixed little-endian layout of `spec_width()` bytes.
pub trait ReadFromBytes: Sized {
    /// Width of one record in bytes.
    spec fn spec_width() -> nat;

    /// The record whose bytes start at `off` in `b`.
    spec fn spec_decode(b: Seq<u8>, off: int) -> Self;

    fn width() -> (r: usize)
        ensures
            r == Self::spec_width(),
            r > 0,
    ;

    fn read_at(bytes: &[u8], offset: usize) -> (r: Self)
        requires
            in_bounds(bytes@, offset as int, Self::spec_width() as int),
        ensures
            r == Self::spec_decode(bytes@, offset as int),
    ;
}

pub open spec fn i16_field(b: Seq<u8>, off: int) -> i16 {
    le_i16(b, off) as i16
}

pub open spec fn u16_field(b: Seq<u8>, off: int) -> u16 {
    le_u16(b, off) as u16
}

impl ReadFromBytes for Vertex {
    open spec fn spec_width() -> nat {
        4
    }

    open spec fn spec_decode(b: Seq<u8>, off: int) -> Vertex {
        Vertex { x: i16_field(b, off), y: i16_field(b, off + 2) }
    }

    fn width() -> (r: usize) {
        4
    }

    fn read_at(bytes: &[u8], offset: usize) -> (r: Vertex) {
        let len = bytes.len();
        assert(offset + 4 <= len);
        Vertex { x: i16_at(bytes, offset), y: i16_at(bytes, offset + 2) }
    }
}

impl ReadFromBytes for Linedef {
    open spec fn spec_width() -> nat {
        14
    }

    open spec fn spec_decode(b: Seq<u8>, off: int) -> Linedef {
        Linedef {
            start_vertex_id: u16_field(b, off),
            end_vertex_id: u16_field(b, off + 2),
            flags: u16_field(b, off + 4),
            line_type: u16_field(b, off + 6),
            sector_tag: u16_field(b, off + 8),
            front_sidedef_id: u16_field(b, off + 10),
            back_sidedef_id: u16_field(b, off + 12),
        }
    }

    fn width() -> (r: usize) {
        14
    }

    fn read_at(bytes: &[u8], offset: usize) -> (r: Linedef) {
        let len = bytes.len();
        assert(offset + 14 <= len);
        Linedef {
            start_vertex_id: u16_at(bytes, offset),
            end_vertex_id: u16_at(bytes, offset + 2),
            flags: u16_at(bytes, offset + 4),
            line_type: u16_at(bytes, offset + 6),
            sector_tag: u16_at(bytes, offset + 8),
            front_sidedef_id: u16_at(bytes, offset + 10),
            back_sidedef_id: u16_at(bytes, offset + 12),
        }
    }
}

impl ReadFromBytes for Thing {
    open spec fn spec_width() -> nat {
        10
    }

    open spec fn spec_decode(b: Seq<u8>, off: int) -> Thing {
        Thing {
            position: Point { x: i16_field(b, off), y: i16_field(b, off + 2) },
            angle: i16_field(b, off + 4),
            ed_type: i16_field(b, off + 6),
            flags: i16_field(b, off + 8),
        }
    }

    fn width() -> (r: usize) {
        10
    }

    fn read_at(bytes: &[u8], offset: usize) -> (r: Thing) {
        let len = bytes.len();
        assert(offset + 10 <= len);
        Thing {
            position: Point { x: i16_at(bytes, offset), y: i16_at(bytes, offset + 2) },
            angle: i16_at(bytes, offset + 4),
            ed_type: i16_at(bytes, offset + 6),
            flags: i16_at(bytes, offset + 8),
        }
    }
}

impl ReadFromBytes for Seg {
    open spec fn spec_width() -> nat {
        12
    }

    open spec fn spec_decode(b: Seq<u8>, off: int) -> Seg {
        Seg {
            start_vertex_id: i16_field(b, off),
            end_vertex_id: i16_field(b, off + 2),
            angle: i16_field(b, off + 4),
            linedef_id: i16_field(b, off + 6),
            direction: i16_field(b, off + 8),
            offset: i16_field(b, off + 10),
        }
    }

    fn width() -> (r: usize) {
        12
    }

    fn read_at(bytes: &[u8], offset: usize) -> (r: Seg) {
        let len = bytes.len();
        assert(offset + 12 <= len);
        Seg {
            start_vertex_id: i16_at(bytes, offset),
            end_vertex_id: i16_at(bytes, offset + 2),
            angle: i16_at(bytes, offset + 4),
            linedef_id: i16_at(bytes, offset + 6),
            direction: i16_at(bytes, offset + 8),
            offset: i16_at(bytes, offset + 10),
        }
    }
}

pub open spec fn bbox_field(b: Seq<u8>, off: int) -> BoundingBox {
    BoundingBox {
        top: i16_field(b, off),
        bottom: i16_field(b, off + 2),
        left: i16_field(b, off + 4),
        right: i16_field(b, off + 6),
    }
}

/// The bounding box whose four bounds start at `offset`.
fn bbox_at(bytes: &[u8], offset: usize) -> (r: BoundingBox)
    requires
        in_bounds(bytes@, offset as int, 8),
    ensures
        r == bbox_field(bytes@, offset as int),
{
    let len = bytes.len();
    assert(offset + 8 <= len);
    BoundingBox {
        top: i16_at(bytes, offset),
        bottom: i16_at(bytes, offset + 2),
        left: i16_at(bytes, offset + 4),
        right: i16_at(bytes, offset + 6),
    }
}

impl ReadFromBytes for Node {
    open spec fn spec_width() -> nat {
        28
    }

    open spec fn spec_decode(b: Seq<u8>, off: int) -> Node {
        Node {
            x_partition: i16_field(b, off),
            y_partition: i16_field(b, off + 2),
            dx_partition: i16_field(b, off + 4),
            dy_partition: i16_field(b, off + 6),
            bbox_right: bbox_field(b, off + 8),
            bbox_left: bbox_field(b, off + 16),
            right_child_id: u16_field(b, off + 24),
            left_child_id: u16_field(b, off + 26),
        }
    }

    fn width() -> (r: usize) {
        28
    }

    fn read_at(bytes: &[u8], offset: usize) -> (r: Node) {
        let len = bytes.len();
        assert(offset + 28 <= len);
        Node {
            x_partition: i16_at(bytes, offset),
            y_partition: i16_at(bytes, offset + 2),
            dx_partition: i16_at(bytes, offset + 4),
            dy_partition: i16_at(bytes, offset + 6),
            bbox_right: bbox_at(bytes, offset + 8),
            bbox_left: bbox_at(bytes, offset + 16),
            right_child_id: u16_at(bytes, offset + 24),
            left_child_id: u16_at(bytes, offset + 26),
        }
    }
}

impl ReadFromBytes for SubSector {
    open spec fn spec_width() -> nat {
        4
    }

    open spec fn spec_decode(b: Seq<u8>, off: int) -> SubSector {
        SubSector { seg_count: i16_field(b, off), first_seg_id: i16_field(b, off + 2) }
    }

    fn width() -> (r: usize) {
        4
    }

    fn read_at(bytes: &[u8], offset: usize) -> (r: SubSector) {
        let len = bytes.len();
        assert(offset + 4 <= len);
        SubSector { seg_count: i16_at(bytes, offset), first_seg_id: i16_at(bytes, offset + 2) }
    }
}

} // verus!
