use doom::bsp::{decode_child, leaf_order, side_of, BinarySpacePartitioning, ChildRef, Side, SUB_SECTOR_IDENTIFIER};
use doom::data::{BoundingBox, Node, Point, Seg, SubSector};
use doom::error::WadError;
use doom::map_data::MapData;

fn bbox() -> BoundingBox {
    BoundingBox { top: 0, bottom: 0, left: 0, right: 0 }
}

fn node(x: i16, y: i16, dx: i16, dy: i16, right: u16, left: u16) -> Node {
    Node {
        x_partition: x,
        y_partition: y,
        dx_partition: dx,
        dy_partition: dy,
        bbox_right: bbox(),
        bbox_left: bbox(),
        right_child_id: right,
        left_child_id: left,
    }
}

fn seg() -> Seg {
    Seg { start_vertex_id: 0, end_vertex_id: 0, angle: 0, linedef_id: 0, direction: 0, offset: 0 }
}

/// Two nodes over three leaves: the root splits along the x axis, node 0
/// along the y axis. Leaf ranges lie end to end over six segs.
fn map(nodes: Vec<Node>) -> MapData {
    MapData {
        map_index: 0,
        vertexes: vec![],
        linedefs: vec![],
        nodes,
        ssectors: vec![
            SubSector { seg_count: 2, first_seg_id: 0 },
            SubSector { seg_count: 1, first_seg_id: 2 },
            SubSector { seg_count: 3, first_seg_id: 3 },
        ],
        segs: vec![seg(); 6],
        things: vec![],
    }
}

fn tree() -> MapData {
    map(vec![node(0, 0, 0, 64, 0x8000, 0x8001), node(0, 0, 64, 0, 0x8002, 0)])
}

#[test]
fn point_right_of_vertical_partition() {
    let n = node(3, 7, 0, 10, 0, 0);
    assert_eq!(side_of(Point { x: 8, y: 7 }, &n), Side::Right);
    assert_eq!(side_of(Point { x: -2, y: 7 }, &n), Side::Left);
}

#[test]
fn partition_origin_is_left() {
    for n in [node(3, 7, 0, 10, 0, 0), node(-100, 40, 25, -3, 0, 0), node(0, 0, 0, 0, 0, 0)] {
        assert_eq!(side_of(Point { x: n.x_partition, y: n.y_partition }, &n), Side::Left);
    }
}

#[test]
fn reflected_point_changes_side() {
    let n = node(10, 20, 7, -3, 0, 0);
    for (px, py) in [(15, 29), (0, 0), (-40, 100)] {
        let p = Point { x: px, y: py };
        let q = Point { x: 2 * n.x_partition - px, y: 2 * n.y_partition - py };
        assert_ne!(side_of(p, &n), side_of(q, &n));
    }
    let on = Point { x: 24, y: 14 };
    let back = Point { x: -4, y: 26 };
    assert_eq!(side_of(on, &n), Side::Left);
    assert_eq!(side_of(back, &n), Side::Left);
}

#[test]
fn extreme_coordinates_do_not_overflow() {
    let n = node(-32768, -32768, 32767, -32768, 0, 0);
    let p = Point { x: 32767, y: 32767 };
    // cross = 65535 * -32768 - 65535 * 32767 < 0
    assert_eq!(side_of(p, &n), Side::Left);
    let m = node(-32768, 32767, -32768, 32767, 0, 0);
    // cross = 65535 * 32767 - (-65535) * -32768 = -65535
    assert_eq!(side_of(Point { x: 32767, y: -32768 }, &m), Side::Left);
    assert_eq!(side_of(Point { x: 32767, y: 32767 }, &m), Side::Right);
}

#[test]
fn child_references_split_on_top_bit() {
    assert_eq!(decode_child(0), ChildRef::Internal(0));
    assert_eq!(decode_child(0x7fff), ChildRef::Internal(0x7fff));
    assert_eq!(decode_child(SUB_SECTOR_IDENTIFIER), ChildRef::Leaf(0));
    assert_eq!(decode_child(0x8005), ChildRef::Leaf(5));
    assert_eq!(decode_child(0xffff), ChildRef::Leaf(0x7fff));
}

#[test]
fn index_roots_at_last_node() {
    let bsp = BinarySpacePartitioning::new(&tree()).unwrap();
    assert_eq!(bsp.root_node_id, 1);
    assert_eq!(bsp.nodes.len(), 2);
    assert_eq!(bsp.ssectors.len(), 3);
    assert_eq!(bsp.segs.len(), 6);
}

#[test]
fn empty_node_table_is_an_empty_tree() {
    assert_eq!(BinarySpacePartitioning::new(&map(vec![])).err(), Some(WadError::EmptyTree));
    assert_eq!(leaf_order(&vec![], 3, 0, Point { x: 0, y: 0 }, true), Err(WadError::EmptyTree));
}

#[test]
fn traversal_orders_near_and_far() {
    let bsp = BinarySpacePartitioning::new(&tree()).unwrap();
    let p = Point { x: 10, y: 5 };
    assert_eq!(bsp.traverse(p, true), Ok(vec![0, 1, 2]));
    assert_eq!(bsp.traverse(p, false), Ok(vec![2, 1, 0]));
    let q = Point { x: -10, y: -5 };
    assert_eq!(bsp.traverse(q, true), Ok(vec![2, 1, 0]));
    assert_eq!(bsp.traverse(q, false), Ok(vec![0, 1, 2]));
    let r = Point { x: -10, y: 5 };
    assert_eq!(bsp.traverse(r, true), Ok(vec![1, 0, 2]));
}

#[test]
fn traversal_visits_each_leaf_once_and_covers_segs() {
    let bsp = BinarySpacePartitioning::new(&tree()).unwrap();
    for p in [Point { x: 10, y: 5 }, Point { x: -3, y: -9 }, Point { x: 0, y: 0 }, Point { x: 7, y: -1 }] {
        for near in [true, false] {
            let leaves = bsp.traverse(p, near).unwrap();
            let mut sorted = leaves.clone();
            sorted.sort();
            assert_eq!(sorted, vec![0, 1, 2]);
            let mut owner = vec![0usize; bsp.segs.len()];
            for leaf in &leaves {
                let (a, b) = bsp.seg_range(*leaf).unwrap();
                for s in a..b {
                    owner[s] += 1;
                }
            }
            assert_eq!(owner, vec![1; 6]);
        }
    }
}

#[test]
fn cycle_is_reported() {
    let bsp = BinarySpacePartitioning::new(&map(vec![node(0, 0, 0, 64, 0x8000, 1), node(0, 0, 64, 0, 0x8002, 0)])).unwrap();
    assert_eq!(bsp.traverse(Point { x: 10, y: 5 }, true), Err(WadError::CyclicTree));
    let self_loop = BinarySpacePartitioning::new(&map(vec![node(0, 0, 0, 64, 0, 0)])).unwrap();
    assert_eq!(self_loop.traverse(Point { x: 1, y: 1 }, false), Err(WadError::CyclicTree));
}

#[test]
fn bad_references_are_out_of_range() {
    let leaf = BinarySpacePartitioning::new(&map(vec![node(0, 0, 0, 64, 0x8000, 0x8003)])).unwrap();
    assert_eq!(leaf.traverse(Point { x: 1, y: 1 }, true), Err(WadError::OutOfRange));
    let inner = BinarySpacePartitioning::new(&map(vec![node(0, 0, 0, 64, 0x8000, 5)])).unwrap();
    assert_eq!(inner.traverse(Point { x: 1, y: 1 }, true), Err(WadError::OutOfRange));
}

#[test]
fn shared_subtree_is_not_a_cycle() {
    // both children of the root lead to node 0
    let bsp = BinarySpacePartitioning::new(&map(vec![node(0, 0, 0, 64, 0x8000, 0x8001), node(0, 0, 64, 0, 0, 0)])).unwrap();
    assert_eq!(bsp.traverse(Point { x: 10, y: 5 }, true), Ok(vec![0, 1, 0, 1]));
}

#[test]
fn seg_ranges_of_leaves() {
    let bsp = BinarySpacePartitioning::new(&tree()).unwrap();
    assert_eq!(bsp.seg_range(0), Ok((0, 2)));
    assert_eq!(bsp.seg_range(1), Ok((2, 3)));
    assert_eq!(bsp.seg_range(2), Ok((3, 6)));
    assert_eq!(bsp.seg_range(3), Err(WadError::OutOfRange));
    let mut m = tree();
    m.ssectors[1] = SubSector { seg_count: 9, first_seg_id: 2 };
    m.ssectors[2] = SubSector { seg_count: 1, first_seg_id: -1 };
    let bad = BinarySpacePartitioning::new(&m).unwrap();
    assert_eq!(bad.seg_range(1), Err(WadError::OutOfRange));
    assert_eq!(bad.seg_range(2), Err(WadError::OutOfRange));
}
