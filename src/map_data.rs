use vstd::prelude::*;

use crate::data::{Linedef, LumpIndices, LumpInfo, Node, ReadFromBytes, Seg, SubSector, Thing, Vertex};
use crate::error::WadError;
use crate::reader::{first_named, no_lump_named, spec_read_lump, view_result, Reader};

verus! {

/// The tables of one map, as loaded from an archive, with the directory
/// index of its marker lump.
#[derive(Debug, Clone)]
pub struct MapData {
    pub map_index: usize,
    pub vertexes: Vec<Vertex>,
    pub linedefs: Vec<Linedef>,
    pub nodes: Vec<Node>,
    pub ssectors: Vec<SubSector>,
    pub segs: Vec<Seg>,
    pub things: Vec<Thing>,
}

/// The mathematical content of a `MapData`.
pub struct MapDataView {
    pub map_index: nat,
    pub vertexes: Seq<Vertex>,
    pub linedefs: Seq<Linedef>,
    pub nodes: Seq<Node>,
    pub ssectors: Seq<SubSector>,
    pub segs: Seq<Seg>,
    pub things: Seq<Thing>,
}

impl View for MapData {
    type V = MapDataView;

    open spec fn view(&self) -> MapDataView {
        MapDataView {
            map_index: self.map_index as nat,
            vertexes: self.vertexes@,
            linedefs: self.linedefs@,
            nodes: self.nodes@,
            ssectors: self.ssectors@,
            segs: self.segs@,
            things: self.things@,
        }
    }
}

/// The map data that loading `name` from the archive with bytes `b` and
/// directory `d` gives: the six tables read at their fixed positions after
/// the marker, in the order things, linedefs, vertexes, segs, subsectors,
/// nodes, the first failure ending the load.
pub open spec fn spec_load_map(b: Seq<u8>, d: Seq<LumpInfo>, name: Seq<char>) -> Result<MapDataView, WadError> {
    if exists|i: int| first_named(d, name, i) {
        let m = choose|i: int| first_named(d, name, i);
        match spec_read_lump::<Thing>(b, d, m + 1) {
            Err(e) => Err(e),
            Ok(things) => match spec_read_lump::<Linedef>(b, d, m + 2) {
                Err(e) => Err(e),
                Ok(linedefs) => match spec_read_lump::<Vertex>(b, d, m + 4) {
                    Err(e) => Err(e),
                    Ok(vertexes) => match spec_read_lump::<Seg>(b, d, m + 5) {
                        Err(e) => Err(e),
                        Ok(segs) => match spec_read_lump::<SubSector>(b, d, m + 6) {
                            Err(e) => Err(e),
                            Ok(ssectors) => match spec_read_lump::<Node>(b, d, m + 7) {
                                Err(e) => Err(e),
                                Ok(nodes) => Ok(
                                    MapDataView {
                                        map_index: m as nat,
                                        vertexes,
                                        linedefs,
                                        nodes,
                                        ssectors,
                                        segs,
                                        things,
                                    },
                                ),
                            },
                        },
                    },
                },
            },
        }
    } else {
        Err(WadError::MapNotFound)
    }
}

pub open spec fn map_result_view(r: Result<MapData, WadError>) -> Result<MapDataView, WadError> {
    match r {
        Ok(m) => Ok(m@),
        Err(e) => Err(e),
    }
}

/// Only one index is the first with a given name.
proof fn lemma_first_named_unique(d: Seq<LumpInfo>, name: Seq<char>, i: int, j: int)
    requires
        first_named(d, name, i),
        first_named(d, name, j),
    ensures
        i == j,
{
    if i < j {
        assert(d[i].name@ != name);
    } else if j < i {
        assert(d[j].name@ != name);
    }
}

/// Reads the lump `rel` places after the marker at `marker` as a table of `T`.
fn read_after<T: ReadFromBytes>(archive: &Reader, marker: usize, rel: usize) -> (r: Result<Vec<T>, WadError>)
    requires
        marker < archive.directory@.len(),
    ensures
        view_result(r) == spec_read_lump::<T>(archive.data@, archive.directory@, marker + rel),
{
    if rel >= archive.directory.len() - marker {
        Err(WadError::OutOfRange)
    } else {
        archive.read_lump::<T>(marker + rel)
    }
}

impl MapData {
    /// Loads the map called `map_name` from a decoded archive.
    pub fn new(archive: &Reader, map_name: &str) -> (r: Result<MapData, WadError>)
        ensures
            map_result_view(r) == spec_load_map(archive.data@, archive.directory@, map_name@),
    {
        let ghost b = archive.data@;
        let ghost d = archive.directory@;
        let map_index = match archive.get_lump_index(map_name) {
            Some(i) => i,
            None => {
                assert(!exists|i: int| first_named(d, map_name@, i)) by {
                    assert(no_lump_named(d, map_name@));
                }
                return Err(WadError::MapNotFound);
            },
        };
        proof {
            let m = choose|i: int| first_named(d, map_name@, i);
            lemma_first_named_unique(d, map_name@, m, map_index as int);
        }
        let things = match read_after::<Thing>(archive, map_index, LumpIndices::THINGS.offset()) {
            Ok(v) => v,
            Err(e) => return Err(e),
        };
        let linedefs = match read_after::<Linedef>(archive, map_index, LumpIndices::LINEDEFS.offset()) {
            Ok(v) => v,
            Err(e) => return Err(e),
        };
        let vertexes = match read_after::<Vertex>(archive, map_index, LumpIndices::VERTEXES.offset()) {
            Ok(v) => v,
            Err(e) => return Err(e),
        };
        let segs = match read_after::<Seg>(archive, map_index, LumpIndices::SEGS.offset()) {
            Ok(v) => v,
            Err(e) => return Err(e),
        };
        let ssectors = match read_after::<SubSector>(archive, map_index, LumpIndices::SSECTORS.offset()) {
            Ok(v) => v,
            Err(e) => return Err(e),
        };
        let nodes = match read_after::<Node>(archive, map_index, LumpIndices::NODES.offset()) {
            Ok(v) => v,
            Err(e) => return Err(e),
        };
        Ok(MapData { map_index, vertexes, linedefs, nodes, ssectors, segs, things })
    }
}

} // verus!
