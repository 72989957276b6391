use vstd::prelude::*;

use crate::error::WadError;
use crate::map::{bounds_of, is_bounds_of, GameMap};
use crate::map_data::{spec_load_map, MapData};
use crate::player::spawned;
use crate::bytes::le_u32;
use crate::reader::{archive_error, archive_ok, directory_matches, header_matches, Reader};

verus! {

/// Loads maps from one decoded archive into the automap's `GameMap`.
pub struct Loader {
    pub reader: Reader,
}

impl Loader {
    /// Decodes the archive held in `data`.
    pub fn new(data: Vec<u8>) -> (r: Result<Loader, WadError>)
        ensures
            r is Ok <==> archive_ok(data@),
            r matches Ok(l) ==> {
                &&& l.reader.data@ == data@
                &&& header_matches(l.reader.header, data@)
                &&& directory_matches(l.reader.directory@, data@, le_u32(data@, 8), le_u32(data@, 4))
            },
            r matches Err(e) ==> archive_error(data@, e),
    {
        match Reader::new(data) {
            Ok(reader) => Ok(Loader { reader }),
            Err(e) => Err(e),
        }
    }

    /// Loads the map named by `map.map_name` into `map`, computes its bounds
    /// and places the player at the thing of its slot. On failure `map` is
    /// left as it was.
    pub fn load_map_data(&self, map: &mut GameMap) -> (r: Result<(), WadError>)
        ensures
            match spec_load_map(self.reader.data@, self.reader.directory@, old(map).map_name@) {
                Ok(m) => {
                    &&& r is Ok
                    &&& final(map).vertexes@ == m.vertexes
                    &&& final(map).linedefs@ == m.linedefs
                    &&& final(map).nodes@ == m.nodes
                    &&& final(map).ssectors@ == m.ssectors
                    &&& final(map).segs@ == m.segs
                    &&& final(map).things@ == m.things
                    &&& is_bounds_of(final(map).bounds, m.vertexes)
                    &&& final(map).player == spawned(old(map).player, m.things)
                    &&& final(map).map_name == old(map).map_name
                    &&& final(map).automap_scale_factor == old(map).automap_scale_factor
                    &&& final(map).render_w == old(map).render_w
                    &&& final(map).render_h == old(map).render_h
                },
                Err(e) => r == Err::<(), WadError>(e) && *final(map) == *old(map),
            },
    {
        let data = match MapData::new(&self.reader, map.map_name.as_str()) {
            Ok(d) => d,
            Err(e) => return Err(e),
        };
        map.bounds = bounds_of(&data.vertexes);
        map.player.spawn(&data.things);
        map.vertexes = data.vertexes;
        map.linedefs = data.linedefs;
        map.nodes = data.nodes;
        map.ssectors = data.ssectors;
        map.segs = data.segs;
        map.things = data.things;
        Ok(())
    }
}

} // verus!
