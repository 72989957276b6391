use vstd::prelude::*;

use crate::data::{Point, Thing};

verus! {

/// The player: its slot among the map's things, position and facing angle.
#[derive(Debug, Clone, Copy, PartialEq, Eq, Structural)]
pub struct Player {
    pub id: usize,
    pub position: Point,
    pub angle: i16,
}

/// The player placed at the thing of its slot: slot `id` is thing `id - 1`,
/// slot 0 is no slot, and a slot past the end of the table leaves it where it is.
pub open spec fn spawned(p: Player, things: Seq<Thing>) -> Player {
    if p.id > 0 && p.id - 1 < things.len() {
        Player { position: things[p.id - 1].position, angle: things[p.id - 1].angle, ..p }
    } else {
        p
    }
}

impl Player {
    /// A player in slot `id`, at the origin, facing angle 0.
    pub fn new(id: usize) -> (r: Player)
        ensures
            r.id == id,
            r.position == (Point { x: 0, y: 0 }),
            r.angle == 0,
    {
        Player { id, position: Point { x: 0, y: 0 }, angle: 0 }
    }

    /// Copies the position and angle of the player's thing, if the slot names one.
    pub fn spawn(&mut self, things: &Vec<Thing>)
        ensures
            *final(self) == spawned(*old(self), things@),
    {
        if self.id > 0 && self.id - 1 < things.len() {
            let t = things[self.id - 1];
            self.position = t.position;
            self.angle = t.angle;
        }
    }
}

} // verus!
