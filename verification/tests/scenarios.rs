use sinking_island::map::tile::FULL_CONSTITUTION;
use sinking_island::map::{
    Erosion, LeafTiles, MapDescriptor, MapSession, MapState, TileSinking, WorldMap,
};
use sinking_island::units::UNIT;

const TENTH: u64 = 100_000_000;

fn sunk_tiles(map: &WorldMap) -> usize {
    map.handles().iter().filter(|h| map.get(**h).unwrap().sinking == TileSinking::Sunk).count()
}

#[test]
fn an_island_of_radius_eight_erodes_until_a_tile_has_sunk() {
    let tile_size = (2.0 * UNIT as f64) as u64;
    let mut map = WorldMap::generate(8, tile_size);
    let mut pairs = 0;
    for x in -8i64..=8 {
        for z in -8i64..=8 {
            if x * x + z * z < 64 {
                pairs += 1;
            }
        }
    }
    assert_eq!(map.len(), pairs);

    let mut leaves = LeafTiles::compute_initial_frontier(&map);
    assert!(leaves.len() > 0);

    let rate = 3_000_000;
    for _ in 0..100 {
        let outcome = map.erode_step(&leaves, rate, TENTH);
        assert!(matches!(outcome, Erosion::Eroded(_)));
        leaves.refresh_frontier(&map);
        map.promote_if_critical();
        map.advance_sink(TENTH);
    }
    let lost: i64 = map
        .handles()
        .iter()
        .map(|h| FULL_CONSTITUTION - map.get(*h).unwrap().constitution)
        .sum();
    assert_eq!(lost, 100 * 300_000_000_000_000);
    assert_eq!(map.len(), pairs);

    let mut ticks = 100;
    while sunk_tiles(&map) == 0 {
        assert!(ticks < 100_000, "no tile has sunk after {ticks} ticks");
        map.erode_step(&leaves, rate, TENTH);
        leaves.refresh_frontier(&map);
        map.promote_if_critical();
        map.advance_sink(TENTH);
        ticks += 1;
    }
    assert!(sunk_tiles(&map) >= 1);
    assert_eq!(map.len(), pairs);
}

#[test]
fn a_session_plays_the_default_island_down() {
    let des = MapDescriptor::default();
    assert!(des.is_fit());
    let mut session = MapSession::new();
    assert!(session.create(&des));
    assert!(session.spawned());
    assert_eq!(session.state, MapState::GamePlay);
    let mut ticks = 0;
    while sunk_tiles(&session.map) == 0 {
        assert!(ticks < 100_000, "no tile has sunk after {ticks} ticks");
        let outcome = session.tick(des.constitution_reduction_rate, TENTH);
        assert!(matches!(outcome, Some(Erosion::Eroded(_))));
        ticks += 1;
    }
    assert!(ticks > 32);
    assert_eq!(session.map.len(), 193);
    assert!(session.leaves.len() >= 44);
}

#[test]
fn a_leaf_hit_four_times_in_sixty_ticks_has_sunk_after_a_hundred() {
    let rate = 3_000_000;
    for last_hit in [4usize, 33, 60] {
        let mut map = WorldMap::generate(8, 2_000_000_000);
        let mut leaves = LeafTiles::compute_initial_frontier(&map);
        let worn = sinking_island::map::MapTileHandle::new(7, 0);
        let others = [
            sinking_island::map::MapTileHandle::new(-7, 0),
            sinking_island::map::MapTileHandle::new(0, 7),
            sinking_island::map::MapTileHandle::new(0, -7),
        ];
        assert!(leaves.contains(worn));
        for tick in 1..=100usize {
            let hit = if tick + 3 >= last_hit && tick <= last_hit {
                worn
            } else {
                others[tick % others.len()]
            };
            assert!(leaves.contains(hit));
            assert!(map.erode_tile(hit, rate, TENTH));
            leaves.refresh_frontier(&map);
            map.promote_if_critical();
            map.advance_sink(TENTH);
            let tile = map.get(worn).unwrap();
            if tick < last_hit {
                assert_eq!(tile.sinking, TileSinking::NotSinking);
            } else if tick < last_hit + 30 {
                assert_eq!(tile.sinking, TileSinking::Sinking);
            } else {
                assert_eq!(tile.sinking, TileSinking::Sunk);
            }
        }
        let tile = map.get(worn).unwrap();
        assert_eq!(tile.sinking, TileSinking::Sunk);
        assert_eq!(tile.position.y, -3_100_000_000);
        assert_eq!(tile.constitution, -200_000_000_000_000);
        assert!(sunk_tiles(&map) >= 1);
    }
}
