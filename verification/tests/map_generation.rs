use sinking_island::map::tile::FULL_CONSTITUTION;
use sinking_island::map::{MapDescriptor, MapTile, MapTileHandle, TileSinking, WorldMap};
use sinking_island::units::{WorldPoint, UNIT};

const TILE: u64 = 2_000_000_000;

fn in_disc(x: i64, z: i64, radius: i64) -> bool {
    x * x + z * z < radius * radius
}

fn count_in_disc(radius: i64) -> usize {
    let mut n = 0;
    for x in -radius - 1..=radius + 1 {
        for z in -radius - 1..=radius + 1 {
            if in_disc(x, z, radius) {
                n += 1;
            }
        }
    }
    n
}

#[test]
fn new_map_is_empty() {
    let map = WorldMap::new();
    assert_eq!(map.len(), 0);
    assert!(!map.contains(MapTileHandle::new(0, 0)));
    assert_eq!(map.get(MapTileHandle::new(0, 0)), None);
    assert!(map.handles().is_empty());
}

#[test]
fn default_map_is_empty() {
    let map = WorldMap::default();
    assert_eq!(map.len(), 0);
}

#[test]
fn radius_eight_holds_the_disc_and_nothing_else() {
    let map = WorldMap::generate(8, TILE);
    assert_eq!(map.len(), 193);
    assert_eq!(map.len(), count_in_disc(8));
    for x in -10i32..=10 {
        for z in -10i32..=10 {
            let handle = MapTileHandle::new(x, z);
            assert_eq!(map.contains(handle), in_disc(x as i64, z as i64, 8), "at ({x}, {z})");
        }
    }
}

#[test]
fn generated_tiles_are_untouched() {
    let map = WorldMap::generate(8, TILE);
    for handle in map.handles() {
        let tile = map.get(handle).unwrap();
        assert_eq!(tile.constitution, FULL_CONSTITUTION);
        assert_eq!(tile.constitution, 1_000_000_000_000_000);
        assert_eq!(tile.sinking, TileSinking::NotSinking);
        assert_eq!(tile.position.y, 0);
        assert_eq!(tile.position.x, handle.x as i64 * 2 * UNIT);
        assert_eq!(tile.position.z, handle.z as i64 * 2 * UNIT);
    }
    let tile = map.get(MapTileHandle::new(-3, 5)).unwrap();
    assert_eq!(
        tile,
        MapTile {
            position: WorldPoint { x: -6_000_000_000, y: 0, z: 10_000_000_000 },
            constitution: 1_000_000_000_000_000,
            sinking: TileSinking::NotSinking,
        }
    );
}

#[test]
fn generation_matches_the_disc_for_small_radii() {
    for radius in 0u32..=12 {
        let map = WorldMap::generate(radius, TILE);
        assert_eq!(map.len(), count_in_disc(radius as i64), "radius {radius}");
        for handle in map.handles() {
            assert!(in_disc(handle.x as i64, handle.z as i64, radius as i64));
        }
    }
}

#[test]
fn radius_zero_has_no_tile() {
    let map = WorldMap::generate(0, TILE);
    assert_eq!(map.len(), 0);
    assert!(!map.contains(MapTileHandle::new(0, 0)));
}

#[test]
fn radius_one_has_only_the_origin() {
    let map = WorldMap::generate(1, TILE);
    assert_eq!(map.len(), 1);
    assert!(map.contains(MapTileHandle::new(0, 0)));
    assert!(!map.contains(MapTileHandle::new(1, 0)));
    assert!(!map.contains(MapTileHandle::new(-1, 0)));
}

#[test]
fn the_rim_itself_is_left_out() {
    let map = WorldMap::generate(5, TILE);
    assert!(!map.contains(MapTileHandle::new(5, 0)));
    assert!(!map.contains(MapTileHandle::new(-5, 0)));
    assert!(!map.contains(MapTileHandle::new(3, 4)));
    assert!(!map.contains(MapTileHandle::new(-5, -5)));
    assert!(map.contains(MapTileHandle::new(4, 2)));
    assert!(map.contains(MapTileHandle::new(-4, 0)));
}

#[test]
fn tile_size_zero_puts_every_tile_at_the_origin() {
    let map = WorldMap::generate(3, 0);
    let tile = map.get(MapTileHandle::new(2, -1)).unwrap();
    assert_eq!(tile.position, WorldPoint { x: 0, y: 0, z: 0 });
}

#[test]
fn insert_puts_a_tile_and_hands_back_the_old_one() {
    let mut map = WorldMap::new();
    let handle = MapTileHandle::new(4, -7);
    let first = MapTile::new(handle, TILE);
    let second = MapTile { constitution: -5, sinking: TileSinking::Sinking, ..first };
    assert_eq!(map.insert(handle, first), None);
    assert_eq!(map.len(), 1);
    assert!(map.contains(handle));
    assert_eq!(map.get(handle), Some(first));
    assert_eq!(map.insert(handle, second), Some(first));
    assert_eq!(map.len(), 1);
    assert_eq!(map.get(handle), Some(second));
    assert!(!map.contains(MapTileHandle::new(-7, 4)));
    assert_eq!(map.get(MapTileHandle::new(4, 7)), None);
}

#[test]
fn handles_lists_every_tile_once() {
    let map = WorldMap::generate(3, TILE);
    let mut listed: Vec<(i32, i32)> = map.handles().iter().map(|h| (h.x, h.z)).collect();
    listed.sort();
    let mut expected = Vec::new();
    for x in -3i32..=3 {
        for z in -3i32..=3 {
            if in_disc(x as i64, z as i64, 3) {
                expected.push((x, z));
            }
        }
    }
    expected.sort();
    assert_eq!(listed, expected);
    assert_eq!(listed.len(), 25);
}

#[test]
fn places_beyond_the_grid_hold_no_tile() {
    let mut map = WorldMap::new();
    let corner = MapTileHandle::new(i32::MAX, i32::MIN);
    map.insert(corner, MapTile::new(MapTileHandle::new(0, 0), TILE));
    assert!(map.has_tile(i32::MAX as i64, i32::MIN as i64));
    assert!(!map.has_tile(i32::MAX as i64 + 1, i32::MIN as i64));
    assert!(!map.has_tile(i32::MAX as i64, i32::MIN as i64 - 1));
    assert!(!map.has_tile(i64::MAX, i64::MIN));
    assert!(map.tile_at(i32::MAX as i64, i32::MIN as i64).is_some());
    assert_eq!(map.tile_at(i32::MAX as i64 + 1, i32::MIN as i64), None);
    assert_eq!(map.tile_at(0, 0), None);
}

#[test]
fn handles_are_equal_when_both_coordinates_agree() {
    assert_eq!(MapTileHandle::new(2, 3), MapTileHandle::new(2, 3));
    assert_ne!(MapTileHandle::new(2, 3), MapTileHandle::new(3, 2));
    assert_ne!(MapTileHandle::new(2, 3), MapTileHandle::new(2, -3));
    let handle = MapTileHandle::new(-9, 14);
    assert_eq!((handle.x, handle.z), (-9, 14));
}

#[test]
fn default_descriptor_is_the_usual_island() {
    let des = MapDescriptor::default();
    assert_eq!(des.tile_size, 2_000_000_000);
    assert_eq!(des.tile_height, 2_000_000_000);
    assert_eq!(des.radius, 8);
    assert_eq!(des.constitution_reduction_rate, 3_000_000);
    assert!(des.is_fit());
}

#[test]
fn descriptor_tells_what_cannot_be_made() {
    let mut des = MapDescriptor::default();
    des.radius = i32::MAX as u32 + 1;
    des.tile_size = 0;
    assert!(!des.is_fit());
    des.radius = i32::MAX as u32;
    assert!(des.is_fit());
    des.tile_size = u64::MAX;
    assert!(!des.is_fit());
    des.radius = 1;
    des.tile_size = i64::MAX as u64;
    assert!(des.is_fit());
    des.tile_size = i64::MAX as u64 + 1;
    assert!(!des.is_fit());
    des.radius = 0;
    des.tile_size = u64::MAX;
    assert!(des.is_fit());
}

#[test]
fn the_largest_tile_size_that_fits_is_used_exactly() {
    let size = i64::MAX as u64 / 3;
    let map = WorldMap::generate(3, size);
    let tile = map.get(MapTileHandle::new(-2, 2)).unwrap();
    assert_eq!(tile.position.x, -2 * (size as i64));
    assert_eq!(tile.position.z, 2 * (size as i64));
}
