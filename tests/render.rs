use doom::color::{get_color, MIN_CHANNEL};
use doom::data::{Point, Thing, Vertex};
use doom::error::WadError;
use doom::game_context::GameContext;
use doom::loader::Loader;
use doom::map::{bounds_of, GameMap, MapBounds, AUTOMAP_SCALE};
use doom::map_data::MapData;
use doom::map_renderer::MapRenderer;
use doom::player::Player;
use doom::reader::Reader;
use doom::renderer::Viewport;

fn i16s(vals: &[i16]) -> Vec<u8> {
    vals.iter().flat_map(|v| v.to_le_bytes()).collect()
}

fn archive(lumps: &[(&str, Vec<u8>)]) -> Vec<u8> {
    let mut data: Vec<u8> = Vec::new();
    let mut dir: Vec<u8> = Vec::new();
    let mut at = 12u32;
    for (name, bytes) in lumps {
        dir.extend_from_slice(&at.to_le_bytes());
        dir.extend_from_slice(&(bytes.len() as u32).to_le_bytes());
        let mut f = name.as_bytes().to_vec();
        f.resize(8, 0);
        dir.extend_from_slice(&f);
        data.extend_from_slice(bytes);
        at += bytes.len() as u32;
    }
    let mut out = b"IWAD".to_vec();
    out.extend_from_slice(&(lumps.len() as u32).to_le_bytes());
    out.extend_from_slice(&at.to_le_bytes());
    out.extend_from_slice(&data);
    out.extend_from_slice(&dir);
    out
}

fn map_archive(nodes: Vec<u8>) -> Vec<u8> {
    archive(&[
        ("E1M1", vec![]),
        ("THINGS", i16s(&[100, 200, 90, 1, 7, -50, 60, 180, 2, 0])),
        ("LINEDEFS", i16s(&[0, 1, 1, 0, 0, 0, -1])),
        ("SIDEDEFS", vec![]),
        ("VERTEXES", i16s(&[0, 0, 64, -64, -30, 10])),
        ("SEGS", i16s(&[0, 1, 0, 0, 0, 0])),
        ("SSECTORS", i16s(&[1, 0])),
        ("NODES", nodes),
    ])
}

fn one_node() -> Vec<u8> {
    i16s(&[0, 0, 0, 64, 0, 0, 0, 0, 0, 0, 0, 0, -32768, -32768])
}

#[test]
fn bounds_are_tight() {
    let vs = vec![Vertex { x: 5, y: -3 }, Vertex { x: -7, y: 12 }, Vertex { x: 2, y: 0 }];
    assert_eq!(bounds_of(&vs), MapBounds { min_x: -7, max_x: 5, min_y: -3, max_y: 12 });
    assert_eq!(bounds_of(&vec![]), MapBounds { min_x: 0, max_x: 0, min_y: 0, max_y: 0 });
    assert_eq!(bounds_of(&vec![Vertex { x: 9, y: 9 }]), MapBounds { min_x: 9, max_x: 9, min_y: 9, max_y: 9 });
}

#[test]
fn new_game_map_is_empty() {
    let m = GameMap::new("E1M1", Player::new(1), 320, 200);
    assert_eq!(m.map_name, "E1M1");
    assert_eq!(m.player, Player::new(1));
    assert!(m.vertexes.is_empty() && m.nodes.is_empty() && m.things.is_empty());
    assert_eq!(m.automap_scale_factor, AUTOMAP_SCALE);
    assert_eq!((m.render_w, m.render_h), (320, 200));
}

#[test]
fn automap_remap_scales_and_rounds_toward_zero() {
    let mut m = GameMap::new("E1M1", Player::new(1), 320, 200);
    m.vertexes = vec![Vertex { x: -100, y: -50 }, Vertex { x: 200, y: 400 }];
    m.calc_map_bounds();
    assert_eq!(m.bounds, MapBounds { min_x: -100, max_x: 200, min_y: -50, max_y: 400 });
    assert_eq!(m.remap_x(-100), 0);
    assert_eq!(m.remap_x(200), 20);
    assert_eq!(m.remap_x(-86), 0);
    assert_eq!(m.remap_x(-85), 1);
    assert_eq!(m.remap_x(-114), 0);
    assert_eq!(m.remap_x(-115), -1);
    assert_eq!(m.remap_y(-50), 200);
    assert_eq!(m.remap_y(400), 170);
    assert_eq!(m.remap_y(-80), 202);
}

#[test]
fn automap_side_test_matches_node() {
    let mut m = GameMap::new("E1M1", Player::new(1), 320, 200);
    let mut nodes = doom::data::Node {
        x_partition: 0,
        y_partition: 0,
        dx_partition: 0,
        dy_partition: 10,
        bbox_right: doom::data::BoundingBox { top: 0, bottom: 0, left: 0, right: 0 },
        bbox_left: doom::data::BoundingBox { top: 0, bottom: 0, left: 0, right: 0 },
        right_child_id: 0x8000,
        left_child_id: 0x8000,
    };
    m.nodes.push(nodes);
    nodes.dy_partition = -10;
    m.nodes.push(nodes);
    assert!(!m.is_point_on_left_side(Point { x: 5, y: 0 }, 0));
    assert!(m.is_point_on_left_side(Point { x: 5, y: 0 }, 1));
    assert!(m.is_point_on_left_side(Point { x: 0, y: 3 }, 0));
}

#[test]
fn viewport_remap_clamps_and_flips_rows() {
    let md = MapData {
        map_index: 0,
        vertexes: vec![Vertex { x: 0, y: 0 }, Vertex { x: 100, y: 50 }, Vertex { x: 50, y: 25 }],
        linedefs: vec![],
        nodes: vec![],
        ssectors: vec![],
        segs: vec![],
        things: vec![],
    };
    let vp = Viewport { x: 30, y: 30, w: 230, h: 130 };
    let r = MapRenderer::new(vp, md);
    assert_eq!(r.map_bounds, MapBounds { min_x: 0, max_x: 100, min_y: 0, max_y: 50 });
    assert_eq!(r.viewport, vp);
    assert_eq!(r.remap_x(0), 30);
    assert_eq!(r.remap_x(100), 230);
    assert_eq!(r.remap_x(50), 130);
    assert_eq!(r.remap_x(-500), 30);
    assert_eq!(r.remap_x(1000), 230);
    assert_eq!(r.remap_x(33), 96);
    assert_eq!(r.remap_y(0), 130);
    assert_eq!(r.remap_y(50), 30);
    assert_eq!(r.remap_y(25), 80);
    assert_eq!(r.remap_y(-9), 130);
    assert_eq!(
        r.map_data.vertexes,
        vec![Vertex { x: 30, y: 130 }, Vertex { x: 230, y: 30 }, Vertex { x: 130, y: 80 }]
    );
}

#[test]
fn viewport_remap_of_flat_map_stays_at_edge() {
    let md = MapData {
        map_index: 0,
        vertexes: vec![Vertex { x: 7, y: 7 }],
        linedefs: vec![],
        nodes: vec![],
        ssectors: vec![],
        segs: vec![],
        things: vec![],
    };
    let r = MapRenderer::new(Viewport { x: 10, y: 20, w: 300, h: 200 }, md);
    assert_eq!(r.remap_x(7), 10);
    assert_eq!(r.remap_y(7), 200);
    assert_eq!(r.map_data.vertexes, vec![Vertex { x: 10, y: 200 }]);
}

#[test]
fn player_spawns_at_its_thing() {
    let things = vec![
        Thing { position: Point { x: 100, y: 200 }, angle: 90, ed_type: 1, flags: 7 },
        Thing { position: Point { x: -50, y: 60 }, angle: 180, ed_type: 2, flags: 0 },
    ];
    let p = Player::new(2);
    assert_eq!((p.id, p.position, p.angle), (2, Point { x: 0, y: 0 }, 0));
    let mut q = p;
    q.spawn(&things);
    assert_eq!((q.id, q.position, q.angle), (2, Point { x: -50, y: 60 }, 180));
    let mut none = Player::new(0);
    none.spawn(&things);
    assert_eq!(none, Player::new(0));
    let mut past = Player::new(3);
    past.spawn(&things);
    assert_eq!(past, Player::new(3));
}

#[test]
fn leaf_colours_are_bright_and_fixed_by_seed() {
    for seed in [0u64, 1, 2, 77, u64::MAX] {
        let c = get_color(seed);
        assert!(c.r >= MIN_CHANNEL && c.g >= MIN_CHANNEL && c.b >= MIN_CHANNEL);
        assert_eq!(get_color(seed), c);
    }
    let distinct: std::collections::HashSet<(u8, u8, u8)> =
        (0..16u64).map(|s| get_color(s)).map(|c| (c.r, c.g, c.b)).collect();
    assert!(distinct.len() > 1);
}

#[test]
fn loader_fills_map_and_player() {
    let loader = Loader::new(map_archive(one_node())).unwrap();
    let mut m = GameMap::new("E1M1", Player::new(1), 320, 200);
    assert_eq!(loader.load_map_data(&mut m), Ok(()));
    assert_eq!(m.vertexes.len(), 3);
    assert_eq!(m.linedefs.len(), 1);
    assert_eq!(m.nodes.len(), 1);
    assert_eq!(m.ssectors.len(), 1);
    assert_eq!(m.segs.len(), 1);
    assert_eq!(m.things.len(), 2);
    assert_eq!(m.bounds, MapBounds { min_x: -30, max_x: 64, min_y: -64, max_y: 10 });
    assert_eq!(m.player.position, Point { x: 100, y: 200 });
    assert_eq!(m.player.angle, 90);
}

#[test]
fn loader_leaves_map_alone_on_failure() {
    let loader = Loader::new(map_archive(one_node())).unwrap();
    let mut m = GameMap::new("E9M9", Player::new(1), 320, 200);
    assert_eq!(loader.load_map_data(&mut m), Err(WadError::MapNotFound));
    assert!(m.vertexes.is_empty());
    assert_eq!(m.player, Player::new(1));
    assert_eq!(Loader::new(vec![1, 2, 3]).err(), Some(WadError::Truncated));
}

#[test]
fn context_builds_index_and_places_player_one() {
    let reader = Reader::new(map_archive(one_node())).unwrap();
    let c = GameContext::new(&reader, "E1M1").unwrap();
    assert_eq!(c.player.id, 1);
    assert_eq!(c.player.position, Point { x: 100, y: 200 });
    assert_eq!(c.player.angle, 90);
    assert_eq!(c.bsp.root_node_id, 0);
    assert_eq!(c.map_data.vertexes.len(), 3);
    assert_eq!(c.bsp.traverse(c.player.position, true), Ok(vec![0, 0]));
    c.bsp.update(&c);
}

#[test]
fn context_without_nodes_is_an_empty_tree() {
    let reader = Reader::new(map_archive(vec![])).unwrap();
    assert_eq!(GameContext::new(&reader, "E1M1").err(), Some(WadError::EmptyTree));
    assert_eq!(GameContext::new(&reader, "E1M2").err(), Some(WadError::MapNotFound));
}
