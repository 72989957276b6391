use vstd::prelude::*;

use crate::data::{Node, Point, Seg, SubSector};
use crate::error::WadError;
use crate::game_context::GameContext;
use crate::map_data::MapData;
use crate::reader::view_result;

verus! {

/// Top bit of a child reference: set when the reference names a leaf.
pub const SUB_SECTOR_IDENTIFIER: u16 = 0x8000;

/// Which side of a partition line a point lies on.
#[derive(Debug, Clone, Copy, PartialEq, Eq, Structural)]
pub enum Side {
    Left,
    Right,
}

/// A decoded child reference: an internal node or a leaf (subsector).
#[derive(Debug, Clone, Copy, PartialEq, Eq, Structural)]
pub enum ChildRef {
    Internal(usize),
    Leaf(usize),
}

/// The reference a raw child id stands for: top bit set means a leaf.
pub open spec fn spec_child(raw: u16) -> ChildRef {
    if raw >= 0x8000 {
        ChildRef::Leaf((raw - 0x8000) as usize)
    } else {
        ChildRef::Internal(raw as usize)
    }
}

/// Splits a raw child reference into its tag and index.
pub fn decode_child(raw: u16) -> (r: ChildRef)
    ensures
        r == spec_child(raw),
{
    if raw >= SUB_SECTOR_IDENTIFIER {
        ChildRef::Leaf((raw - SUB_SECTOR_IDENTIFIER) as usize)
    } else {
        ChildRef::Internal(raw as usize)
    }
}

/// The 2D cross product of the point's offset from the partition origin with
/// the partition direction.
pub open spec fn cross(p: Point, n: Node) -> int {
    (p.x - n.x_partition) * n.dy_partition - (p.y - n.y_partition) * n.dx_partition
}

/// Points with a cross product of at most zero are on the left.
pub open spec fn spec_side(p: Point, n: Node) -> Side {
    if cross(p, n) <= 0 {
        Side::Left
    } else {
        Side::Right
    }
}

/// Classifies `point` against the partition line of `node`: `Left` when the
/// cross product is at most zero, else `Right`.
pub fn side_of(point: Point, node: &Node) -> (r: Side)
    ensures
        r == spec_side(point, *node),
{
    let dx: i64 = point.x as i64 - node.x_partition as i64;
    let dy: i64 = point.y as i64 - node.y_partition as i64;
    let ndx: i64 = node.dx_partition as i64;
    let ndy: i64 = node.dy_partition as i64;
    proof {
        assert(-65536 * 32768 <= dx * ndy <= 65536 * 32768) by (nonlinear_arith)
            requires -65535 <= dx <= 65535, -32768 <= ndy <= 32767;
        assert(-65536 * 32768 <= dy * ndx <= 65536 * 32768) by (nonlinear_arith)
            requires -65535 <= dy <= 65535, -32768 <= ndx <= 32767;
    }
    let c: i64 = dx * ndy - dy * ndx;
    if c <= 0 {
        Side::Left
    } else {
        Side::Right
    }
}

/// The two children of `n` in the order a walk takes them: the side that
/// holds `p` first when `near_first`, the other side first otherwise.
pub open spec fn visit_order(p: Point, n: Node, near_first: bool) -> (u16, u16) {
    if (spec_side(p, n) == Side::Left) == near_first {
        (n.left_child_id, n.right_child_id)
    } else {
        (n.right_child_id, n.left_child_id)
    }
}

/// The leaves, in visit order, of a depth-first walk from `c` over a tree of
/// `nodes` with `n_leaves` leaves. `path` marks the nodes on the current path;
/// reaching one of them again is a cycle. Each internal node entered takes one
/// unit of `fuel`; a walk started with one unit per node runs out of it only
/// after every node is on the path.
pub open spec fn spec_walk(
    nodes: Seq<Node>,
    n_leaves: int,
    c: ChildRef,
    p: Point,
    near_first: bool,
    path: Seq<bool>,
    fuel: nat,
) -> Result<Seq<usize>, WadError>
    decreases fuel,
{
    match c {
        ChildRef::Leaf(i) => if i < n_leaves {
            Ok(seq![i])
        } else {
            Err(WadError::OutOfRange)
        },
        ChildRef::Internal(i) => if i >= nodes.len() {
            Err(WadError::OutOfRange)
        } else if path[i as int] || fuel == 0 {
            Err(WadError::CyclicTree)
        } else {
            let (first, second) = visit_order(p, nodes[i as int], near_first);
            let inner = path.update(i as int, true);
            match spec_walk(nodes, n_leaves, spec_child(first), p, near_first, inner, (fuel - 1) as nat) {
                Err(e) => Err(e),
                Ok(a) => match spec_walk(nodes, n_leaves, spec_child(second), p, near_first, inner, (fuel - 1) as nat) {
                    Err(e) => Err(e),
                    Ok(z) => Ok(a + z),
                },
            }
        },
    }
}

/// No node is on the path yet.
pub open spec fn empty_path(n: nat) -> Seq<bool> {
    Seq::new(n, |i: int| false)
}

/// The leaves that a walk of the whole tree from `root` visits, in order.
pub open spec fn spec_leaf_order(nodes: Seq<Node>, n_leaves: int, root: int, p: Point, near_first: bool) -> Result<Seq<usize>, WadError> {
    if nodes.len() == 0 {
        Err(WadError::EmptyTree)
    } else {
        spec_walk(nodes, n_leaves, ChildRef::Internal(root as usize), p, near_first, empty_path(nodes.len()), nodes.len())
    }
}

/// Walks from `c`, appending the leaves visited to `out`.
fn walk(
    nodes: &Vec<Node>,
    n_leaves: usize,
    c: ChildRef,
    p: Point,
    near_first: bool,
    path: &mut Vec<bool>,
    fuel: usize,
    out: &mut Vec<usize>,
) -> (r: Result<(), WadError>)
    requires
        old(path)@.len() == nodes@.len(),
    ensures
        final(path)@.len() == nodes@.len(),
        match spec_walk(nodes@, n_leaves as int, c, p, near_first, old(path)@, fuel as nat) {
            Ok(s) => r is Ok && final(out)@ == old(out)@ + s && final(path)@ == old(path)@,
            Err(e) => r == Err::<(), WadError>(e),
        },
    decreases fuel,
{
    match c {
        ChildRef::Leaf(i) => {
            if i < n_leaves {
                out.push(i);
                Ok(())
            } else {
                Err(WadError::OutOfRange)
            }
        },
        ChildRef::Internal(i) => {
            if i >= nodes.len() {
                return Err(WadError::OutOfRange);
            }
            if path[i] || fuel == 0 {
                return Err(WadError::CyclicTree);
            }
            let node = nodes[i];
            let near_is_left = match side_of(p, &node) {
                Side::Left => true,
                Side::Right => false,
            };
            let (first, second) = if near_is_left == near_first {
                (node.left_child_id, node.right_child_id)
            } else {
                (node.right_child_id, node.left_child_id)
            };
            let ghost path0 = path@;
            let ghost out0 = out@;
            path.set(i, true);
            match walk(nodes, n_leaves, decode_child(first), p, near_first, path, fuel - 1, out) {
                Ok(()) => {},
                Err(e) => return Err(e),
            }
            let ghost out1 = out@;
            match walk(nodes, n_leaves, decode_child(second), p, near_first, path, fuel - 1, out) {
                Ok(()) => {},
                Err(e) => return Err(e),
            }
            path.set(i, false);
            proof {
                assert(path@ =~= path0);
                assert(out@ =~= out0 + (out@.subrange(out0.len() as int, out1.len() as int) + out@.subrange(out1.len() as int, out@.len() as int)));
            }
            Ok(())
        },
    }
}

/// The leaves of the tree of `nodes` reached from node `root`, in the order
/// of a depth-first walk that takes at each node the side holding `point`
/// first (`near_first`) or last.
pub fn leaf_order(nodes: &Vec<Node>, n_leaves: usize, root: usize, point: Point, near_first: bool) -> (r: Result<Vec<usize>, WadError>)
    ensures
        view_result(r) == spec_leaf_order(nodes@, n_leaves as int, root as int, point, near_first),
{
    if nodes.len() == 0 {
        return Err(WadError::EmptyTree);
    }
    let mut path: Vec<bool> = Vec::new();
    let mut i: usize = 0;
    while i < nodes.len()
        invariant
            i <= nodes@.len(),
            path@ =~= Seq::new(i as nat, |k: int| false),
        decreases nodes@.len() - i,
    {
        path.push(false);
        i = i + 1;
    }
    let mut out: Vec<usize> = Vec::new();
    match walk(nodes, n_leaves, ChildRef::Internal(root), point, near_first, &mut path, nodes.len(), &mut out) {
        Ok(()) => {
            assert(out@ =~= Seq::<usize>::empty() + out@);
            Ok(out)
        },
        Err(e) => Err(e),
    }
}

/// Reflecting a point through the partition origin negates its cross
/// product, so a point off the line changes side; a point on the line stays
/// `Left`.
pub proof fn lemma_side_reflection(p: Point, q: Point, n: Node)
    requires
        q.x == 2 * n.x_partition - p.x,
        q.y == 2 * n.y_partition - p.y,
    ensures
        cross(q, n) == -cross(p, n),
        cross(p, n) != 0 ==> spec_side(q, n) != spec_side(p, n),
        cross(p, n) == 0 ==> spec_side(q, n) == Side::Left && spec_side(p, n) == Side::Left,
{
    let dx = p.x - n.x_partition;
    let dy = p.y - n.y_partition;
    assert(q.x - n.x_partition == -dx);
    assert(q.y - n.y_partition == -dy);
    assert((-dx) * n.dy_partition - (-dy) * n.dx_partition == -(dx * n.dy_partition - dy * n.dx_partition))
        by (nonlinear_arith);
}

/// The partition origin itself lies on the line and is classified `Left`.
pub proof fn lemma_origin_is_left(n: Node)
    ensures
        cross(Point { x: n.x_partition, y: n.y_partition }, n) == 0,
        spec_side(Point { x: n.x_partition, y: n.y_partition }, n) == Side::Left,
{
    let o = Point { x: n.x_partition, y: n.y_partition };
    assert(o.x - n.x_partition == 0 && o.y - n.y_partition == 0);
    assert(0 * n.dy_partition - 0 * n.dx_partition == 0) by (nonlinear_arith);
}

/// How many nodes `path` marks.
pub open spec fn marked(path: Seq<bool>) -> nat
    decreases path.len(),
{
    if path.len() == 0 {
        0
    } else {
        marked(path.drop_last()) + if path.last() { 1nat } else { 0nat }
    }
}

proof fn lemma_marked_bounds(path: Seq<bool>, i: int)
    requires
        0 <= i < path.len(),
    ensures
        marked(path) <= path.len(),
        !path[i] ==> marked(path) < path.len(),
        !path[i] ==> marked(path.update(i, true)) == marked(path) + 1,
    decreases path.len(),
{
    let n = path.len() - 1;
    let u = path.update(i, true);
    assert(marked(path) == marked(path.drop_last()) + if path.last() { 1nat } else { 0nat });
    assert(marked(u) == marked(u.drop_last()) + if u.last() { 1nat } else { 0nat });
    if i < n {
        assert(path.drop_last()[i] == path[i]);
        lemma_marked_bounds(path.drop_last(), i);
        assert(u.drop_last() =~= path.drop_last().update(i, true));
        assert(u.last() == path.last());
    } else {
        assert(u.drop_last() =~= path.drop_last());
        if n > 0 {
            lemma_marked_bounds(path.drop_last(), 0);
        }
    }
}

proof fn lemma_walk_fuel_suffices(
    nodes: Seq<Node>,
    n_leaves: int,
    c: ChildRef,
    p: Point,
    near_first: bool,
    path: Seq<bool>,
    fuel: nat,
    extra: nat,
)
    requires
        path.len() == nodes.len(),
        marked(path) + fuel >= path.len(),
    ensures
        spec_walk(nodes, n_leaves, c, p, near_first, path, fuel + extra)
            == spec_walk(nodes, n_leaves, c, p, near_first, path, fuel),
    decreases fuel,
{
    if let ChildRef::Internal(i) = c {
        if i < nodes.len() && !path[i as int] {
            lemma_marked_bounds(path, i as int);
            let n = nodes[i as int];
            let inner = path.update(i as int, true);
            let f = (fuel - 1) as nat;
            assert((fuel + extra - 1) as nat == f + extra);
            lemma_walk_fuel_suffices(nodes, n_leaves, spec_child(n.left_child_id), p, near_first, inner, f, extra);
            lemma_walk_fuel_suffices(nodes, n_leaves, spec_child(n.right_child_id), p, near_first, inner, f, extra);
        }
    }
}

/// A walk of the whole tree never runs out of fuel: giving it more changes
/// nothing, so it reports a cycle only on meeting a node again on its path.
pub proof fn lemma_leaf_order_fuel_suffices(
    nodes: Seq<Node>,
    n_leaves: int,
    root: int,
    p: Point,
    near_first: bool,
    extra: nat,
)
    requires
        nodes.len() > 0,
    ensures
        spec_walk(
            nodes,
            n_leaves,
            ChildRef::Internal(root as usize),
            p,
            near_first,
            empty_path(nodes.len()),
            nodes.len() + extra,
        ) == spec_leaf_order(nodes, n_leaves, root, p, near_first),
{
    lemma_walk_fuel_suffices(nodes, n_leaves, ChildRef::Internal(root as usize), p, near_first, empty_path(nodes.len()), nodes.len(), extra);
}

/// A reference names an existing table entry: a leaf below `n_leaves` or a
/// node below `nodes.len()`.
pub open spec fn valid_ref(nodes: Seq<Node>, n_leaves: int, c: ChildRef) -> bool {
    match c {
        ChildRef::Leaf(i) => i < n_leaves,
        ChildRef::Internal(i) => i < nodes.len(),
    }
}

/// `t` is reached from `c` by following at most `depth` child links of valid nodes.
pub open spec fn reaches(nodes: Seq<Node>, c: ChildRef, t: ChildRef, depth: nat) -> bool
    decreases depth,
{
    c == t || (depth > 0 && match c {
        ChildRef::Internal(i) => i < nodes.len() && (
            reaches(nodes, spec_child(nodes[i as int].left_child_id), t, (depth - 1) as nat)
            || reaches(nodes, spec_child(nodes[i as int].right_child_id), t, (depth - 1) as nat)),
        ChildRef::Leaf(_) => false,
    })
}

proof fn lemma_walk_ok_reached_valid(
    nodes: Seq<Node>,
    n_leaves: int,
    c: ChildRef,
    p: Point,
    near_first: bool,
    path: Seq<bool>,
    fuel: nat,
    t: ChildRef,
    depth: nat,
)
    requires
        spec_walk(nodes, n_leaves, c, p, near_first, path, fuel) is Ok,
        reaches(nodes, c, t, depth),
    ensures
        valid_ref(nodes, n_leaves, t),
    decreases depth,
{
    if c != t {
        if let ChildRef::Internal(i) = c {
            let n = nodes[i as int];
            let inner = path.update(i as int, true);
            let (first, second) = visit_order(p, n, near_first);
            assert(spec_walk(nodes, n_leaves, spec_child(first), p, near_first, inner, (fuel - 1) as nat) is Ok);
            assert(spec_walk(nodes, n_leaves, spec_child(second), p, near_first, inner, (fuel - 1) as nat) is Ok);
            if reaches(nodes, spec_child(n.left_child_id), t, (depth - 1) as nat) {
                lemma_walk_ok_reached_valid(nodes, n_leaves, spec_child(n.left_child_id), p, near_first, inner, (fuel - 1) as nat, t, (depth - 1) as nat);
            } else {
                lemma_walk_ok_reached_valid(nodes, n_leaves, spec_child(n.right_child_id), p, near_first, inner, (fuel - 1) as nat, t, (depth - 1) as nat);
            }
        }
    }
}

/// When a walk of the whole tree succeeds, every reference reachable from
/// the root names an existing leaf or node.
pub proof fn lemma_reachable_refs_valid(
    nodes: Seq<Node>,
    n_leaves: int,
    root: int,
    p: Point,
    near_first: bool,
    t: ChildRef,
    depth: nat,
)
    requires
        0 <= root <= usize::MAX,
        spec_leaf_order(nodes, n_leaves, root, p, near_first) is Ok,
        reaches(nodes, ChildRef::Internal(root as usize), t, depth),
    ensures
        valid_ref(nodes, n_leaves, t),
{
    lemma_walk_ok_reached_valid(nodes, n_leaves, ChildRef::Internal(root as usize), p, near_first, empty_path(nodes.len()), nodes.len(), t, depth);
}

proof fn lemma_walk_view_independent(
    nodes: Seq<Node>,
    n_leaves: int,
    c: ChildRef,
    pa: Point,
    oa: bool,
    pb: Point,
    ob: bool,
    path: Seq<bool>,
    fuel: nat,
)
    requires
        spec_walk(nodes, n_leaves, c, pa, oa, path, fuel) is Ok,
    ensures
        spec_walk(nodes, n_leaves, c, pb, ob, path, fuel) is Ok,
        spec_walk(nodes, n_leaves, c, pa, oa, path, fuel)->Ok_0.to_multiset()
            =~= spec_walk(nodes, n_leaves, c, pb, ob, path, fuel)->Ok_0.to_multiset(),
    decreases fuel,
{
    if let ChildRef::Internal(i) = c {
        let n = nodes[i as int];
        let inner = path.update(i as int, true);
        let f = (fuel - 1) as nat;
        let l = spec_child(n.left_child_id);
        let r = spec_child(n.right_child_id);
        assert(spec_walk(nodes, n_leaves, l, pa, oa, inner, f) is Ok);
        assert(spec_walk(nodes, n_leaves, r, pa, oa, inner, f) is Ok);
        lemma_walk_view_independent(nodes, n_leaves, l, pa, oa, pb, ob, inner, f);
        lemma_walk_view_independent(nodes, n_leaves, r, pa, oa, pb, ob, inner, f);
        let l1 = spec_walk(nodes, n_leaves, l, pa, oa, inner, f)->Ok_0;
        let r1 = spec_walk(nodes, n_leaves, r, pa, oa, inner, f)->Ok_0;
        let l2 = spec_walk(nodes, n_leaves, l, pb, ob, inner, f)->Ok_0;
        let r2 = spec_walk(nodes, n_leaves, r, pb, ob, inner, f)->Ok_0;
        vstd::seq_lib::lemma_multiset_commutative(l1, r1);
        vstd::seq_lib::lemma_multiset_commutative(r1, l1);
        vstd::seq_lib::lemma_multiset_commutative(l2, r2);
        vstd::seq_lib::lemma_multiset_commutative(r2, l2);
    }
}

/// Whether a walk of the whole tree succeeds, and which leaves it visits
/// counted with multiplicity, depend neither on the viewpoint nor on the
/// near-first or far-first order: only the visit order changes.
pub proof fn lemma_leaves_independent_of_view(
    nodes: Seq<Node>,
    n_leaves: int,
    root: int,
    pa: Point,
    oa: bool,
    pb: Point,
    ob: bool,
)
    requires
        spec_leaf_order(nodes, n_leaves, root, pa, oa) is Ok,
    ensures
        spec_leaf_order(nodes, n_leaves, root, pb, ob) is Ok,
        spec_leaf_order(nodes, n_leaves, root, pa, oa)->Ok_0.to_multiset()
            =~= spec_leaf_order(nodes, n_leaves, root, pb, ob)->Ok_0.to_multiset(),
{
    lemma_walk_view_independent(nodes, n_leaves, ChildRef::Internal(root as usize), pa, oa, pb, ob, empty_path(nodes.len()), nodes.len());
}

/// The leaves' seg ranges lie end to end: leaf `k` holds segs
/// `first_seg_id .. first_seg_id + seg_count`, the first leaf starts at seg
/// 0, each next leaf starts where the previous one ends, and the last one
/// ends at `segs_len`.
pub open spec fn ranges_tile(ss: Seq<SubSector>, segs_len: int) -> bool {
    &&& forall|k: int| 0 <= k < ss.len() ==> #[trigger] ss[k].seg_count >= 0
    &&& ss.len() > 0 ==> ss[0].first_seg_id == 0
    &&& forall|k: int| 0 <= k < ss.len() - 1 ==> #[trigger] ss[k + 1].first_seg_id == ss[k].first_seg_id + ss[k].seg_count
    &&& segs_len == if ss.len() == 0 { 0 } else { ss.last().first_seg_id + ss.last().seg_count }
}

/// Seg `j` lies in the range of leaf `leaf`.
pub open spec fn seg_in_leaf(ss: Seq<SubSector>, leaf: int, j: int) -> bool {
    ss[leaf].first_seg_id <= j < ss[leaf].first_seg_id + ss[leaf].seg_count
}

/// `leaves` names every one of the `n` leaves exactly once.
pub open spec fn each_leaf_once(leaves: Seq<usize>, n: int) -> bool {
    &&& leaves.no_duplicates()
    &&& forall|k: int| 0 <= k < leaves.len() ==> #[trigger] leaves[k] < n
    &&& forall|l: usize| l < n ==> #[trigger] leaves.contains(l)
}

proof fn lemma_tile_ordered(ss: Seq<SubSector>, segs_len: int, a: int, b: int)
    requires
        ranges_tile(ss, segs_len),
        0 <= a < b < ss.len(),
    ensures
        ss[a].first_seg_id + ss[a].seg_count <= ss[b].first_seg_id,
    decreases b - a,
{
    if a + 1 < b {
        lemma_tile_ordered(ss, segs_len, a + 1, b);
        assert(ss[a + 1].seg_count >= 0);
    }
}

proof fn lemma_tile_covers(ss: Seq<SubSector>, segs_len: int, k: int, j: int) -> (l: int)
    requires
        ranges_tile(ss, segs_len),
        0 <= k < ss.len(),
        ss[k].first_seg_id <= j < segs_len,
    ensures
        k <= l < ss.len(),
        seg_in_leaf(ss, l, j),
    decreases ss.len() - k,
{
    if j < ss[k].first_seg_id + ss[k].seg_count {
        k
    } else {
        assert(ss[k + 1].first_seg_id == ss[k].first_seg_id + ss[k].seg_count);
        lemma_tile_covers(ss, segs_len, k + 1, j)
    }
}

/// When the leaf ranges lie end to end over the seg table and `leaves` names
/// every leaf exactly once, as the walk of a well-formed tree does, each seg
/// index lies in the range of exactly one entry of `leaves`.
pub proof fn lemma_visited_ranges_partition_segs(leaves: Seq<usize>, ss: Seq<SubSector>, segs_len: int, j: int)
    requires
        ss.len() <= usize::MAX,
        ranges_tile(ss, segs_len),
        each_leaf_once(leaves, ss.len() as int),
        0 <= j < segs_len,
    ensures
        exists|k: int| 0 <= k < leaves.len() && seg_in_leaf(ss, #[trigger] leaves[k] as int, j),
        forall|k1: int, k2: int|
            0 <= k1 < leaves.len() && 0 <= k2 < leaves.len() && seg_in_leaf(ss, #[trigger] leaves[k1] as int, j)
                && seg_in_leaf(ss, #[trigger] leaves[k2] as int, j) ==> k1 == k2,
{
    let l = lemma_tile_covers(ss, segs_len, 0, j);
    assert(leaves.contains(l as usize));
    let k = choose|k: int| 0 <= k < leaves.len() && leaves[k] == l as usize;
    assert(leaves[k] as int == l);
    assert(seg_in_leaf(ss, leaves[k] as int, j));
    assert forall|k1: int, k2: int|
        0 <= k1 < leaves.len() && 0 <= k2 < leaves.len() && seg_in_leaf(ss, #[trigger] leaves[k1] as int, j)
            && seg_in_leaf(ss, #[trigger] leaves[k2] as int, j) implies k1 == k2 by {
        let a = leaves[k1] as int;
        let b = leaves[k2] as int;
        if a < b {
            lemma_tile_ordered(ss, segs_len, a, b);
        } else if b < a {
            lemma_tile_ordered(ss, segs_len, b, a);
        }
    }
}

/// The seg range `start .. end` of leaf `leaf`; `OutOfRange` unless the
/// leaf exists and its range lies within a seg table of `segs_len` entries.
pub open spec fn spec_seg_range(ss: Seq<SubSector>, segs_len: int, leaf: int) -> Result<(usize, usize), WadError> {
    if 0 <= leaf < ss.len() && ss[leaf].first_seg_id >= 0 && ss[leaf].seg_count >= 0
        && ss[leaf].first_seg_id + ss[leaf].seg_count <= segs_len {
        Ok((ss[leaf].first_seg_id as usize, (ss[leaf].first_seg_id + ss[leaf].seg_count) as usize))
    } else {
        Err(WadError::OutOfRange)
    }
}

/// Looks up the seg range of a leaf, checking it against the tables.
pub fn leaf_seg_range(ssectors: &Vec<SubSector>, segs_len: usize, leaf: usize) -> (r: Result<(usize, usize), WadError>)
    ensures
        r == spec_seg_range(ssectors@, segs_len as int, leaf as int),
{
    if leaf >= ssectors.len() {
        return Err(WadError::OutOfRange);
    }
    let ss = ssectors[leaf];
    if ss.first_seg_id < 0 || ss.seg_count < 0 {
        return Err(WadError::OutOfRange);
    }
    let start = ss.first_seg_id as usize;
    let count = ss.seg_count as usize;
    if count > segs_len || start > segs_len - count {
        return Err(WadError::OutOfRange);
    }
    Ok((start, start + count))
}

/// The partition tree of a map: its node, leaf and seg tables and the index
/// of the root node, which the format always stores last.
pub struct BinarySpacePartitioning {
    pub nodes: Vec<Node>,
    pub ssectors: Vec<SubSector>,
    pub segs: Vec<Seg>,
    pub root_node_id: usize,
}

impl BinarySpacePartitioning {
    /// Builds the index over copies of the map's tables, rooted at the last node.
    pub fn new(map_data: &MapData) -> (r: Result<BinarySpacePartitioning, WadError>)
        ensures
            map_data.nodes@.len() == 0 ==> r == Err::<BinarySpacePartitioning, WadError>(WadError::EmptyTree),
            map_data.nodes@.len() > 0 ==> (r matches Ok(t) && t.nodes@ == map_data.nodes@
                && t.ssectors@ == map_data.ssectors@ && t.segs@ == map_data.segs@
                && t.root_node_id == map_data.nodes@.len() - 1),
    {
        if map_data.nodes.len() == 0 {
            return Err(WadError::EmptyTree);
        }
        let nodes = map_data.nodes.clone();
        let ssectors = map_data.ssectors.clone();
        let segs = map_data.segs.clone();
        assert(nodes@ =~= map_data.nodes@);
        assert(ssectors@ =~= map_data.ssectors@);
        assert(segs@ =~= map_data.segs@);
        Ok(BinarySpacePartitioning { nodes, ssectors, segs, root_node_id: map_data.nodes.len() - 1 })
    }

    /// The leaves visited by a walk from the root as seen from `point`, in
    /// visit order: near side first when `near_first`, far side first otherwise.
    pub fn traverse(&self, point: Point, near_first: bool) -> (r: Result<Vec<usize>, WadError>)
        ensures
            view_result(r) == spec_leaf_order(self.nodes@, self.ssectors@.len() as int, self.root_node_id as int, point, near_first),
    {
        leaf_order(&self.nodes, self.ssectors.len(), self.root_node_id, point, near_first)
    }

    /// Per-frame hook; the index is static for the life of a map, so a
    /// frame changes nothing in it.
    pub fn update(&self, context: &GameContext) {
    }

    /// The seg indices `start .. end` of leaf `leaf`, when the leaf exists
    /// and its range lies within the seg table.
    pub fn seg_range(&self, leaf: usize) -> (r: Result<(usize, usize), WadError>)
        ensures
            r == spec_seg_range(self.ssectors@, self.segs@.len() as int, leaf as int),
    {
        leaf_seg_range(&self.ssectors, self.segs.len(), leaf)
    }
}

} // verus!
