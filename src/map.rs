use vstd::prelude::*;

use crate::bsp::{side_of, spec_side, Side};
use crate::data::{Linedef, Node, Point, Seg, SubSector, Thing, Vertex};
use crate::player::Player;

verus! {

/// The smallest and largest coordinates of a map's vertices.
#[derive(Debug, Clone, Copy, PartialEq, Eq, Structural)]
pub struct MapBounds {
    pub min_x: i16,
    pub max_x: i16,
    pub min_y: i16,
    pub max_y: i16,
}

/// `b` bounds `vs` tightly on both axes; an empty table has all bounds 0.
pub open spec fn is_bounds_of(b: MapBounds, vs: Seq<Vertex>) -> bool {
    if vs.len() == 0 {
        b == MapBounds { min_x: 0, max_x: 0, min_y: 0, max_y: 0 }
    } else {
        &&& forall|i: int| 0 <= i < vs.len() ==> b.min_x <= #[trigger] vs[i].x <= b.max_x
        &&& forall|i: int| 0 <= i < vs.len() ==> b.min_y <= #[trigger] vs[i].y <= b.max_y
        &&& exists|i: int| 0 <= i < vs.len() && #[trigger] vs[i].x == b.min_x
        &&& exists|i: int| 0 <= i < vs.len() && #[trigger] vs[i].x == b.max_x
        &&& exists|i: int| 0 <= i < vs.len() && #[trigger] vs[i].y == b.min_y
        &&& exists|i: int| 0 <= i < vs.len() && #[trigger] vs[i].y == b.max_y
    }
}

/// The tight bounds of a vertex table.
pub fn bounds_of(vertexes: &Vec<Vertex>) -> (b: MapBounds)
    ensures
        is_bounds_of(b, vertexes@),
{
    if vertexes.len() == 0 {
        return MapBounds { min_x: 0, max_x: 0, min_y: 0, max_y: 0 };
    }
    let mut b = MapBounds { min_x: vertexes[0].x, max_x: vertexes[0].x, min_y: vertexes[0].y, max_y: vertexes[0].y };
    let ghost vs = vertexes@;
    let mut i: usize = 1;
    while i < vertexes.len()
        invariant
            1 <= i <= vs.len(),
            vs == vertexes@,
            forall|k: int| 0 <= k < i ==> b.min_x <= #[trigger] vs[k].x <= b.max_x,
            forall|k: int| 0 <= k < i ==> b.min_y <= #[trigger] vs[k].y <= b.max_y,
            exists|k: int| 0 <= k < i && #[trigger] vs[k].x == b.min_x,
            exists|k: int| 0 <= k < i && #[trigger] vs[k].x == b.max_x,
            exists|k: int| 0 <= k < i && #[trigger] vs[k].y == b.min_y,
            exists|k: int| 0 <= k < i && #[trigger] vs[k].y == b.max_y,
        decreases vs.len() - i,
    {
        let v = vertexes[i];
        if v.x < b.min_x {
            b.min_x = v.x;
        }
        if v.x > b.max_x {
            b.max_x = v.x;
        }
        if v.y < b.min_y {
            b.min_y = v.y;
        }
        if v.y > b.max_y {
            b.max_y = v.y;
        }
        i = i + 1;
    }
    b
}

/// Integer division rounded toward zero, as Rust's `/` on signed values does.
pub open spec fn trunc_div(a: int, d: int) -> int {
    if a >= 0 {
        a / d
    } else {
        -((-a) / d)
    }
}

/// `a / d` rounded toward zero.
pub fn div_toward_zero(a: i64, d: i64) -> (r: i64)
    requires
        d > 0,
        a > i64::MIN,
    ensures
        r == trunc_div(a as int, d as int),
{
    if a >= 0 {
        ((a as u64) / (d as u64)) as i64
    } else {
        -((((-a) as u64) / (d as u64)) as i64)
    }
}

/// A loaded map as the automap sees it: its tables, bounds, the player, and
/// the scale from map units to screen pixels.
pub struct GameMap {
    pub map_name: String,
    pub player: Player,
    pub vertexes: Vec<Vertex>,
    pub linedefs: Vec<Linedef>,
    pub nodes: Vec<Node>,
    pub ssectors: Vec<SubSector>,
    pub segs: Vec<Seg>,
    pub things: Vec<Thing>,
    pub bounds: MapBounds,
    pub automap_scale_factor: i16,
    pub render_w: u32,
    pub render_h: u32,
}

/// Map units per automap pixel.
pub const AUTOMAP_SCALE: i16 = 15;

impl GameMap {
    /// An empty map called `map_name` for a screen of `render_w` by `render_h`
    /// pixels, at the automap's default scale.
    pub fn new(map_name: &str, player: Player, render_w: u32, render_h: u32) -> (r: GameMap)
        ensures
            r.map_name@ == map_name@,
            r.player == player,
            r.vertexes@.len() == 0,
            r.linedefs@.len() == 0,
            r.nodes@.len() == 0,
            r.ssectors@.len() == 0,
            r.segs@.len() == 0,
            r.things@.len() == 0,
            r.bounds == (MapBounds { min_x: 0, max_x: 0, min_y: 0, max_y: 0 }),
            r.automap_scale_factor == AUTOMAP_SCALE,
            r.render_w == render_w,
            r.render_h == render_h,
    {
        GameMap {
            map_name: map_name.to_owned(),
            player,
            vertexes: Vec::new(),
            linedefs: Vec::new(),
            nodes: Vec::new(),
            ssectors: Vec::new(),
            segs: Vec::new(),
            things: Vec::new(),
            bounds: MapBounds { min_x: 0, max_x: 0, min_y: 0, max_y: 0 },
            automap_scale_factor: AUTOMAP_SCALE,
            render_w,
            render_h,
        }
    }

    /// Sets the bounds to the tight bounds of the vertex table.
    pub fn calc_map_bounds(&mut self)
        ensures
            is_bounds_of(final(self).bounds, old(self).vertexes@),
            *final(self) == (GameMap { bounds: final(self).bounds, ..*old(self) }),
    {
        self.bounds = bounds_of(&self.vertexes);
    }

    /// Whether `point` lies on the left of node `node_id`'s partition line.
    pub fn is_point_on_left_side(&self, point: Point, node_id: usize) -> (r: bool)
        requires
            node_id < self.nodes@.len(),
        ensures
            r == (spec_side(point, self.nodes@[node_id as int]) == Side::Left),
    {
        match side_of(point, &self.nodes[node_id]) {
            Side::Left => true,
            Side::Right => false,
        }
    }

    /// Screen column of map x coordinate `x`: its distance from the left
    /// bound, scaled down.
    pub fn remap_x(&self, x: i16) -> (r: i64)
        requires
            self.automap_scale_factor > 0,
        ensures
            r == trunc_div(x - self.bounds.min_x, self.automap_scale_factor as int),
    {
        div_toward_zero(x as i64 - self.bounds.min_x as i64, self.automap_scale_factor as i64)
    }

    /// Screen row of map y coordinate `y`: its scaled distance from the
    /// bottom bound, counted up from the bottom of the screen.
    pub fn remap_y(&self, y: i16) -> (r: i64)
        requires
            self.automap_scale_factor > 0,
        ensures
            r == self.render_h - trunc_div(y - self.bounds.min_y, self.automap_scale_factor as int),
    {
        let q = div_toward_zero(y as i64 - self.bounds.min_y as i64, self.automap_scale_factor as i64);
        proof {
            assert(-65535 <= q <= 65535) by {
                let a = y - self.bounds.min_y;
                let d = self.automap_scale_factor as int;
                if a >= 0 {
                    vstd::arithmetic::div_mod::lemma_div_is_ordered_by_denominator(a, 1, d);
                } else {
                    vstd::arithmetic::div_mod::lemma_div_is_ordered_by_denominator(-a, 1, d);
                }
            }
        }
        self.render_h as i64 - q
    }
}

} // verus!
