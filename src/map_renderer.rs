use vstd::prelude::*;

use crate::bsp::{side_of, spec_side, Side};
use crate::data::{Node, Vertex};
use crate::game_context::GameContext;
use crate::map::{bounds_of, div_toward_zero, is_bounds_of, trunc_div, MapBounds};
use crate::map_data::{MapData, MapDataView};
use crate::renderer::Viewport;

verus! {

/// `v` held within `lo ..= hi`.
pub open spec fn clamp(v: int, lo: int, hi: int) -> int {
    if v < lo {
        lo
    } else if v > hi {
        hi
    } else {
        v
    }
}

/// Where `v`, clamped to `lo ..= hi`, falls when that span is stretched
/// onto `out_lo ..= out_hi`, measured from `out_lo`; a span of one value maps
/// to offset 0.
pub open spec fn scaled_offset(v: int, lo: int, hi: int, out_lo: int, out_hi: int) -> int {
    if hi <= lo {
        0
    } else {
        trunc_div((clamp(v, lo, hi) - lo) * (out_hi - out_lo), hi - lo)
    }
}

/// Screen column of map x coordinate `x`.
pub open spec fn spec_remap_x(b: MapBounds, vp: Viewport, x: int) -> int {
    scaled_offset(x, b.min_x as int, b.max_x as int, vp.x as int, vp.w as int) + vp.x
}

/// Screen row of map y coordinate `y`: rows grow downward, so the bottom
/// bound lands on row `h`.
pub open spec fn spec_remap_y(b: MapBounds, vp: Viewport, y: int) -> int {
    (vp.y + vp.h) - scaled_offset(y, b.min_y as int, b.max_y as int, vp.y as int, vp.h as int) - vp.y
}

/// A vertex moved to screen coordinates, each cut to 16 bits.
pub open spec fn remapped(b: MapBounds, vp: Viewport, v: Vertex) -> Vertex {
    Vertex { x: spec_remap_x(b, vp, v.x as int) as i16, y: spec_remap_y(b, vp, v.y as int) as i16 }
}

proof fn lemma_scaled_offset_between(v: int, lo: int, hi: int, out_lo: int, out_hi: int)
    ensures
        out_hi >= out_lo ==> 0 <= scaled_offset(v, lo, hi, out_lo, out_hi) <= out_hi - out_lo,
        out_hi < out_lo ==> out_hi - out_lo <= scaled_offset(v, lo, hi, out_lo, out_hi) <= 0,
{
    if hi > lo {
        let a = clamp(v, lo, hi) - lo;
        let s = hi - lo;
        let w = out_hi - out_lo;
        let m = if w >= 0 { w } else { -w };
        assert(0 <= a * m <= s * m) by (nonlinear_arith)
            requires 0 <= a <= s, m >= 0;
        vstd::arithmetic::div_mod::lemma_div_is_ordered(a * m, s * m, s);
        vstd::arithmetic::div_mod::lemma_div_is_ordered(0, a * m, s);
        vstd::arithmetic::div_mod::lemma_div_by_multiple(m, s);
        assert(s * m == m * s) by (nonlinear_arith);
        if w < 0 {
            assert(a * w == -(a * m)) by (nonlinear_arith)
                requires m == -w;
        }
    }
}

/// Draws a map into a viewport: the map's tables with vertices already in
/// screen coordinates, the bounds they were mapped from, and the viewport.
pub struct MapRenderer {
    pub map_data: MapData,
    pub map_bounds: MapBounds,
    pub viewport: Viewport,
}

impl MapRenderer {
    /// Takes the map's bounds and moves its vertices into the viewport.
    pub fn new(viewport: Viewport, map_data: MapData) -> (r: MapRenderer)
        ensures
            is_bounds_of(r.map_bounds, map_data.vertexes@),
            r.viewport == viewport,
            r.map_data@ == (MapDataView {
                vertexes: map_data.vertexes@.map_values(|v: Vertex| remapped(r.map_bounds, viewport, v)),
                ..map_data@
            }),
    {
        let map_bounds = bounds_of(&map_data.vertexes);
        let mut map_renderer = MapRenderer { map_data, map_bounds, viewport };
        map_renderer.remap_vertexes();
        map_renderer
    }

    /// Screen column of map x coordinate `x`, clamped to the map's bounds.
    pub fn remap_x(&self, x: i16) -> (r: i32)
        ensures
            r == spec_remap_x(self.map_bounds, self.viewport, x as int),
    {
        let b = self.map_bounds;
        let vp = self.viewport;
        proof {
            lemma_scaled_offset_between(x as int, b.min_x as int, b.max_x as int, vp.x as int, vp.w as int);
        }
        if b.max_x <= b.min_x {
            return vp.x;
        }
        let c: i64 = if x < b.min_x { b.min_x as i64 } else if x > b.max_x { b.max_x as i64 } else { x as i64 };
        let a: i64 = c - b.min_x as i64;
        let w: i64 = vp.w as i64 - vp.x as i64;
        proof {
            assert(-65536 * 0x1_0000_0000 <= a * w <= 65536 * 0x1_0000_0000) by (nonlinear_arith)
                requires 0 <= a <= 65535, -0x1_0000_0000 <= w <= 0x1_0000_0000;
        }
        let q = div_toward_zero(a * w, b.max_x as i64 - b.min_x as i64);
        (q + vp.x as i64) as i32
    }

    /// Screen row of map y coordinate `y`, clamped to the map's bounds.
    pub fn remap_y(&self, y: i16) -> (r: i32)
        ensures
            r == spec_remap_y(self.map_bounds, self.viewport, y as int),
    {
        let b = self.map_bounds;
        let vp = self.viewport;
        proof {
            lemma_scaled_offset_between(y as int, b.min_y as int, b.max_y as int, vp.y as int, vp.h as int);
        }
        if b.max_y <= b.min_y {
            return vp.h;
        }
        let c: i64 = if y < b.min_y { b.min_y as i64 } else if y > b.max_y { b.max_y as i64 } else { y as i64 };
        let a: i64 = c - b.min_y as i64;
        let w: i64 = vp.h as i64 - vp.y as i64;
        proof {
            assert(-65536 * 0x1_0000_0000 <= a * w <= 65536 * 0x1_0000_0000) by (nonlinear_arith)
                requires 0 <= a <= 65535, -0x1_0000_0000 <= w <= 0x1_0000_0000;
        }
        let q = div_toward_zero(a * w, b.max_y as i64 - b.min_y as i64);
        let height: i64 = vp.y as i64 + vp.h as i64;
        (height - q - vp.y as i64) as i32
    }

    /// Replaces every vertex by its screen position.
    pub fn remap_vertexes(&mut self)
        ensures
            final(self).map_bounds == old(self).map_bounds,
            final(self).viewport == old(self).viewport,
            final(self).map_data@ == (MapDataView {
                vertexes: old(self).map_data.vertexes@.map_values(
                    |v: Vertex| remapped(old(self).map_bounds, old(self).viewport, v),
                ),
                ..old(self).map_data@
            }),
    {
        let ghost old_vs = self.map_data.vertexes@;
        let mut out: Vec<Vertex> = Vec::new();
        let mut i: usize = 0;
        while i < self.map_data.vertexes.len()
            invariant
                i <= old_vs.len(),
                self.map_data.vertexes@ == old_vs,
                out@.len() == i,
                forall|k: int| 0 <= k < i ==> #[trigger] out@[k] == remapped(self.map_bounds, self.viewport, old_vs[k]),
            decreases old_vs.len() - i,
        {
            let v = self.map_data.vertexes[i];
            let rx = self.remap_x(v.x);
            let ry = self.remap_y(v.y);
            out.push(Vertex { x: #[verifier::truncate] (rx as i16), y: #[verifier::truncate] (ry as i16) });
            i = i + 1;
        }
        assert(out@ =~= old_vs.map_values(|v: Vertex| remapped(self.map_bounds, self.viewport, v)));
        self.map_data.vertexes = out;
    }

    /// Whether the player of `context` lies on the left of `node`'s partition line.
    pub fn bsp_node_is_on_left_side(&self, node: &Node, context: &GameContext) -> (r: bool)
        ensures
            r == (spec_side(context.player.position, *node) == Side::Left),
    {
        match side_of(context.player.position, node) {
            Side::Left => true,
            Side::Right => false,
        }
    }
}

} // verus!
