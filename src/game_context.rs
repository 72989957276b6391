use vstd::prelude::*;

use crate::bsp::BinarySpacePartitioning;
use crate::error::WadError;
use crate::map_data::{spec_load_map, MapData};
use crate::player::{spawned, Player};
use crate::reader::Reader;

verus! {

/// Slot of the player whose start the context places it at.
pub const PLAYER_ONE: usize = 1;

/// Everything a running map needs: its tables, the player and the partition index.
pub struct GameContext {
    pub map_data: MapData,
    pub player: Player,
    pub bsp: BinarySpacePartitioning,
}

impl GameContext {
    /// Loads `map_name`, places player one at its start and builds the
    /// partition index.
    pub fn new(archive: &Reader, map_name: &str) -> (r: Result<GameContext, WadError>)
        ensures
            match spec_load_map(archive.data@, archive.directory@, map_name@) {
                Err(e) => r == Err::<GameContext, WadError>(e),
                Ok(m) => if m.nodes.len() == 0 {
                    r == Err::<GameContext, WadError>(WadError::EmptyTree)
                } else {
                    r matches Ok(c) && c.map_data@ == m
                        && c.player == spawned(Player { id: PLAYER_ONE, position: crate::data::Point { x: 0, y: 0 }, angle: 0 }, m.things)
                        && c.bsp.nodes@ == m.nodes && c.bsp.ssectors@ == m.ssectors && c.bsp.segs@ == m.segs
                        && c.bsp.root_node_id == m.nodes.len() - 1
                },
            },
    {
        let map_data = match MapData::new(archive, map_name) {
            Ok(d) => d,
            Err(e) => return Err(e),
        };
        let mut player = Player::new(PLAYER_ONE);
        player.spawn(&map_data.things);
        let bsp = match BinarySpacePartitioning::new(&map_data) {
            Ok(b) => b,
            Err(e) => return Err(e),
        };
        Ok(GameContext { map_data, player, bsp })
    }
}

} // verus!
