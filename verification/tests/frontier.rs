use sinking_island::map::{LeafTiles, MapTile, MapTileHandle, TileSinking, WorldMap};

const TILE: u64 = 2_000_000_000;

fn tile(x: i32, z: i32, sinking: TileSinking) -> MapTile {
    MapTile { sinking, ..MapTile::new(MapTileHandle::new(x, z), TILE) }
}

fn block(states: &[((i32, i32), TileSinking)]) -> WorldMap {
    let mut map = WorldMap::new();
    for &((x, z), sinking) in states {
        map.insert(MapTileHandle::new(x, z), tile(x, z, sinking));
    }
    map
}

fn lacks_neighbor(map: &WorldMap, x: i32, z: i32) -> bool {
    !(map.contains(MapTileHandle::new(x - 1, z))
        && map.contains(MapTileHandle::new(x + 1, z))
        && map.contains(MapTileHandle::new(x, z - 1))
        && map.contains(MapTileHandle::new(x, z + 1)))
}

#[test]
fn new_frontier_is_empty() {
    let leaves = LeafTiles::new();
    assert_eq!(leaves.len(), 0);
    assert!(!leaves.contains(MapTileHandle::new(0, 0)));
    assert_eq!(LeafTiles::default().len(), 0);
}

#[test]
fn frontier_insert_tells_whether_the_tile_is_new() {
    let mut leaves = LeafTiles::new();
    assert!(leaves.insert(MapTileHandle::new(1, 2)));
    assert!(!leaves.insert(MapTileHandle::new(1, 2)));
    assert!(leaves.insert(MapTileHandle::new(2, 1)));
    assert_eq!(leaves.len(), 2);
    assert!(leaves.contains(MapTileHandle::new(1, 2)));
    assert!(leaves.contains(MapTileHandle::new(2, 1)));
    assert!(!leaves.contains(MapTileHandle::new(1, 1)));
}

#[test]
fn initial_frontier_is_the_tiles_that_lack_a_neighbor() {
    let map = WorldMap::generate(8, TILE);
    let leaves = LeafTiles::compute_initial_frontier(&map);
    let mut expected = 0;
    for x in -9i32..=9 {
        for z in -9i32..=9 {
            let handle = MapTileHandle::new(x, z);
            let is_leaf = map.contains(handle) && lacks_neighbor(&map, x, z);
            assert_eq!(leaves.contains(handle), is_leaf, "at ({x}, {z})");
            if is_leaf {
                expected += 1;
            }
        }
    }
    assert_eq!(leaves.len(), expected);
    assert_eq!(leaves.len(), 44);
    assert!(leaves.len() < map.len());
}

#[test]
fn initial_frontier_is_never_empty_and_leaves_the_inside_out() {
    for radius in 1u32..=12 {
        let map = WorldMap::generate(radius, TILE);
        let leaves = LeafTiles::compute_initial_frontier(&map);
        assert!(leaves.len() > 0, "radius {radius}");
        assert!(leaves.contains(MapTileHandle::new(radius as i32 - 1, 0)));
        if radius >= 2 {
            assert!(!leaves.contains(MapTileHandle::new(0, 0)));
            assert!(leaves.len() < map.len());
        }
    }
}

#[test]
fn a_single_tile_is_its_own_frontier() {
    let map = WorldMap::generate(1, TILE);
    let leaves = LeafTiles::compute_initial_frontier(&map);
    assert_eq!(leaves.len(), 1);
    assert!(leaves.contains(MapTileHandle::new(0, 0)));
}

#[test]
fn an_empty_map_has_no_frontier() {
    let leaves = LeafTiles::compute_initial_frontier(&WorldMap::new());
    assert_eq!(leaves.len(), 0);
}

#[test]
fn each_missing_side_alone_makes_a_leaf() {
    let n = TileSinking::NotSinking;
    let full = [((0, 0), n), ((-1, 0), n), ((1, 0), n), ((0, -1), n), ((0, 1), n)];
    let leaves = LeafTiles::compute_initial_frontier(&block(&full));
    assert!(!leaves.contains(MapTileHandle::new(0, 0)));
    assert_eq!(leaves.len(), 4);
    for missing in 1..5 {
        let mut states = full.to_vec();
        states.remove(missing);
        let leaves = LeafTiles::compute_initial_frontier(&block(&states));
        assert!(leaves.contains(MapTileHandle::new(0, 0)), "without side {missing}");
    }
}

#[test]
fn diagonal_neighbors_do_not_count() {
    let n = TileSinking::NotSinking;
    let map = block(&[((0, 0), n), ((-1, -1), n), ((1, 1), n), ((-1, 1), n), ((1, -1), n)]);
    let leaves = LeafTiles::compute_initial_frontier(&map);
    assert!(leaves.contains(MapTileHandle::new(0, 0)));
    assert_eq!(leaves.len(), 5);
}

#[test]
fn a_tile_at_the_edge_of_the_grid_is_a_leaf() {
    let n = TileSinking::NotSinking;
    let map = block(&[
        ((i32::MAX, 0), n),
        ((i32::MAX - 1, 0), n),
        ((i32::MAX, 1), n),
        ((i32::MAX, -1), n),
        ((i32::MIN, i32::MIN), n),
    ]);
    let leaves = LeafTiles::compute_initial_frontier(&map);
    assert!(leaves.contains(MapTileHandle::new(i32::MAX, 0)));
    assert!(leaves.contains(MapTileHandle::new(i32::MIN, i32::MIN)));
    assert_eq!(leaves.len(), 5);
}

#[test]
fn refresh_takes_in_the_afloat_neighbors_of_sunk_tiles() {
    let map = block(&[
        ((0, 0), TileSinking::Sunk),
        ((-1, 0), TileSinking::NotSinking),
        ((1, 0), TileSinking::Sinking),
        ((0, -1), TileSinking::Sunk),
        ((1, 1), TileSinking::NotSinking),
        ((-1, -1), TileSinking::NotSinking),
        ((5, 5), TileSinking::NotSinking),
    ]);
    let mut leaves = LeafTiles::new();
    leaves.refresh_frontier(&map);
    assert!(leaves.contains(MapTileHandle::new(-1, 0)));
    assert!(leaves.contains(MapTileHandle::new(-1, -1)));
    assert!(!leaves.contains(MapTileHandle::new(1, 0)));
    assert!(!leaves.contains(MapTileHandle::new(0, -1)));
    assert!(!leaves.contains(MapTileHandle::new(0, 0)));
    assert!(!leaves.contains(MapTileHandle::new(1, 1)));
    assert!(!leaves.contains(MapTileHandle::new(0, 1)));
    assert!(!leaves.contains(MapTileHandle::new(5, 5)));
    assert_eq!(leaves.len(), 2);
}

#[test]
fn refresh_keeps_what_the_frontier_held() {
    let map = block(&[((0, 0), TileSinking::Sunk), ((0, 1), TileSinking::NotSinking)]);
    let mut leaves = LeafTiles::new();
    leaves.insert(MapTileHandle::new(0, 0));
    leaves.insert(MapTileHandle::new(9, 9));
    leaves.refresh_frontier(&map);
    assert!(leaves.contains(MapTileHandle::new(0, 0)));
    assert!(leaves.contains(MapTileHandle::new(9, 9)));
    assert!(leaves.contains(MapTileHandle::new(0, 1)));
    assert_eq!(leaves.len(), 3);
}

#[test]
fn refresh_without_sunk_tiles_changes_nothing() {
    let map = WorldMap::generate(4, TILE);
    let mut leaves = LeafTiles::compute_initial_frontier(&map);
    let before = leaves.len();
    leaves.refresh_frontier(&map);
    assert_eq!(leaves.len(), before);
    assert!(!leaves.contains(MapTileHandle::new(0, 0)));
}

#[test]
fn refresh_twice_is_refresh_once() {
    let map = block(&[
        ((0, 0), TileSinking::Sunk),
        ((1, 0), TileSinking::NotSinking),
        ((0, 1), TileSinking::NotSinking),
    ]);
    let mut leaves = LeafTiles::new();
    leaves.refresh_frontier(&map);
    assert_eq!(leaves.len(), 2);
    leaves.refresh_frontier(&map);
    assert_eq!(leaves.len(), 2);
}

#[test]
fn refresh_at_the_edge_of_the_grid() {
    let map = block(&[
        ((i32::MIN, i32::MAX), TileSinking::Sunk),
        ((i32::MIN + 1, i32::MAX), TileSinking::NotSinking),
        ((i32::MIN, i32::MAX - 1), TileSinking::NotSinking),
    ]);
    let mut leaves = LeafTiles::new();
    leaves.refresh_frontier(&map);
    assert!(leaves.contains(MapTileHandle::new(i32::MIN + 1, i32::MAX)));
    assert!(leaves.contains(MapTileHandle::new(i32::MIN, i32::MAX - 1)));
    assert_eq!(leaves.len(), 2);
}

#[test]
fn pick_from_an_empty_frontier_is_none() {
    assert_eq!(LeafTiles::new().pick(), None);
}

#[test]
fn pick_from_one_leaf_is_that_leaf() {
    let mut leaves = LeafTiles::new();
    leaves.insert(MapTileHandle::new(-3, 8));
    for _ in 0..20 {
        assert_eq!(leaves.pick(), Some(MapTileHandle::new(-3, 8)));
    }
}

#[test]
fn pick_is_always_a_leaf() {
    let map = WorldMap::generate(6, TILE);
    let leaves = LeafTiles::compute_initial_frontier(&map);
    for _ in 0..500 {
        let picked = leaves.pick().unwrap();
        assert!(leaves.contains(picked));
    }
}

#[test]
fn pick_reaches_every_leaf() {
    let mut leaves = LeafTiles::new();
    for x in 0..4 {
        leaves.insert(MapTileHandle::new(x, 0));
    }
    let mut seen = [false; 4];
    for _ in 0..2000 {
        seen[leaves.pick().unwrap().x as usize] = true;
    }
    assert_eq!(seen, [true; 4]);
}

#[test]
fn frontier_handles_lists_every_leaf_once() {
    let map = WorldMap::generate(3, TILE);
    let leaves = LeafTiles::compute_initial_frontier(&map);
    let mut listed: Vec<(i32, i32)> = leaves.handles().iter().map(|h| (h.x, h.z)).collect();
    listed.sort();
    let mut expected = Vec::new();
    for handle in map.handles() {
        if lacks_neighbor(&map, handle.x, handle.z) {
            expected.push((handle.x, handle.z));
        }
    }
    expected.sort();
    assert_eq!(listed, expected);
    assert_eq!(listed.len(), 16);
    assert!(LeafTiles::new().handles().is_empty());
}

#[test]
fn prune_takes_the_sunk_leaves_off() {
    let map = block(&[
        ((0, 0), TileSinking::Sunk),
        ((1, 0), TileSinking::Sinking),
        ((2, 0), TileSinking::NotSinking),
        ((3, 0), TileSinking::Sunk),
    ]);
    let mut leaves = LeafTiles::new();
    for x in 0..3 {
        leaves.insert(MapTileHandle::new(x, 0));
    }
    leaves.insert(MapTileHandle::new(7, 7));
    leaves.prune_sunk(&map);
    assert!(!leaves.contains(MapTileHandle::new(0, 0)));
    assert!(leaves.contains(MapTileHandle::new(1, 0)));
    assert!(leaves.contains(MapTileHandle::new(2, 0)));
    assert!(!leaves.contains(MapTileHandle::new(3, 0)));
    assert!(leaves.contains(MapTileHandle::new(7, 7)));
    assert_eq!(leaves.len(), 3);
    leaves.prune_sunk(&map);
    assert_eq!(leaves.len(), 3);
}

#[test]
fn prune_where_every_leaf_has_sunk_leaves_nothing() {
    let map = block(&[((0, 0), TileSinking::Sunk), ((0, 1), TileSinking::Sunk)]);
    let mut leaves = LeafTiles::compute_initial_frontier(&map);
    assert_eq!(leaves.len(), 2);
    leaves.prune_sunk(&map);
    assert_eq!(leaves.len(), 0);
    assert_eq!(leaves.pick(), None);
    leaves.prune_sunk(&map);
    assert_eq!(leaves.len(), 0);
}

#[test]
fn prune_without_sunk_tiles_keeps_every_leaf() {
    let map = WorldMap::generate(5, TILE);
    let mut leaves = LeafTiles::compute_initial_frontier(&map);
    leaves.prune_sunk(&map);
    assert_eq!(leaves.len(), 24);
    for handle in map.handles() {
        assert_eq!(leaves.contains(handle), lacks_neighbor(&map, handle.x, handle.z));
    }
}

#[test]
fn a_pruned_frontier_empties_only_when_the_island_is_gone() {
    let mut map = WorldMap::generate(4, TILE);
    let mut leaves = LeafTiles::compute_initial_frontier(&map);
    let tenth = 100_000_000;
    let afloat = |map: &WorldMap| {
        map.handles().iter().filter(|h| map.get(**h).unwrap().sinking != TileSinking::Sunk).count()
    };
    let mut ticks = 0;
    while afloat(&map) > 0 {
        assert!(ticks < 100_000, "some tile is still afloat after {ticks} ticks");
        ticks += 1;
        assert!(leaves.len() > 0);
        let picked = leaves.pick().unwrap();
        assert!(map.erode_tile(picked, 3_000_000, tenth));
        leaves.refresh_frontier(&map);
        leaves.prune_sunk(&map);
        map.promote_if_critical();
        map.advance_sink(tenth);
    }
    leaves.refresh_frontier(&map);
    leaves.prune_sunk(&map);
    assert_eq!(leaves.len(), 0);
    assert_eq!(map.erode_step(&leaves, 3_000_000, tenth), sinking_island::map::Erosion::NoLeaf);
}
