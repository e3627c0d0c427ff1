//! The store of all tiles of the island.

use crate::map::descriptor::island_fits;
use crate::map::tables::{tiles_in, TileTable};
use crate::map::tile::{handles_of, MapTile, MapTileHandle};
use vstd::prelude::*;

verus! {

/// All tiles of the island, each under its handle. The map is filled once,
/// when the island is generated; after that tiles change but never leave.
///
/// Seen as `map@`, it is the mathematical map from grid pairs `(x, z)` to
/// tiles: the tile of a handle `h` stands under `h.pair()`.
pub struct WorldMap {
    table: TileTable,
}

/// Whether `(x, z)` lies within `radius` of the origin: `x² + z² < radius²`.
pub open spec fn in_disc(x: int, z: int, radius: int) -> bool {
    x * x + z * z < radius * radius
}

/// The island of the given radius before any erosion: an untouched tile at
/// every grid place within `radius` of the origin, and nothing else.
pub open spec fn island(radius: int, tile_size: u64) -> Map<(i32, i32), MapTile> {
    Map::new(
        |pair: (i32, i32)| in_disc(pair.0 as int, pair.1 as int, radius),
        |pair: (i32, i32)| MapTile::fresh(MapTileHandle { x: pair.0, z: pair.1 }, tile_size),
    )
}

/// The map without tiles.
pub open spec fn no_tiles() -> Map<(i32, i32), MapTile> {
    Map::empty()
}

/// Whether `tiles` has a tile at the grid place `(x, z)`. No tile lies at a
/// place whose coordinates no handle can carry.
pub open spec fn has_tile_at(tiles: Map<(i32, i32), MapTile>, x: int, z: int) -> bool {
    &&& i32::MIN <= x <= i32::MAX
    &&& i32::MIN <= z <= i32::MAX
    &&& tiles.contains_key((x as i32, z as i32))
}

/// Every place within `radius` of the origin is less than `radius` away
/// from it along each axis.
pub proof fn lemma_disc_is_bounded(x: int, z: int, radius: int)
    requires
        0 <= radius,
        in_disc(x, z, radius),
    ensures
        -radius < x < radius,
        -radius < z < radius,
{
    assert(x * x < radius * radius && z * z < radius * radius) by (nonlinear_arith)
        requires
            x * x + z * z < radius * radius,
    ;
    assert(-radius < x < radius) by (nonlinear_arith)
        requires
            0 <= radius,
            x * x < radius * radius,
    ;
    assert(-radius < z < radius) by (nonlinear_arith)
        requires
            0 <= radius,
            z * z < radius * radius,
    ;
}

impl View for WorldMap {
    type V = Map<(i32, i32), MapTile>;

    closed spec fn view(&self) -> Map<(i32, i32), MapTile> {
        tiles_in(self.table)
    }
}

impl Default for WorldMap {
    fn default() -> (map: WorldMap)
        ensures
            map@ == no_tiles(),
    {
        WorldMap::new()
    }
}

impl WorldMap {
    /// A map without tiles.
    pub fn new() -> (map: WorldMap)
        ensures
            map@ == no_tiles(),
    {
        let table = TileTable::new();
        assert(tiles_in(table) =~= no_tiles());
        WorldMap { table }
    }

    /// The number of tiles.
    pub fn len(&self) -> (n: usize)
        ensures
            n == self@.dom().len(),
    {
        self.table.len()
    }

    /// Whether the map has a tile under `handle`.
    pub fn contains(&self, handle: MapTileHandle) -> (held: bool)
        ensures
            held == self@.contains_key(handle.pair()),
    {
        self.table.contains_key((handle.x, handle.z))
    }

    /// The tile under `handle`, if the map has one.
    pub fn get(&self, handle: MapTileHandle) -> (tile: Option<MapTile>)
        ensures
            tile == if self@.contains_key(handle.pair()) {
                Some(self@[handle.pair()])
            } else {
                None
            },
    {
        self.table.get((handle.x, handle.z))
    }

    /// Puts `tile` under `handle`, in place of the tile that was there if
    /// there was one, and returns that tile.
    pub fn insert(&mut self, handle: MapTileHandle, tile: MapTile) -> (before: Option<MapTile>)
        ensures
            final(self)@ == old(self)@.insert(handle.pair(), tile),
            before == if old(self)@.contains_key(handle.pair()) {
                Some(old(self)@[handle.pair()])
            } else {
                None
            },
    {
        self.table.insert((handle.x, handle.z), tile)
    }

    /// The handles of all tiles, each once, in no particular order.
    pub fn handles(&self) -> (handles: Vec<MapTileHandle>)
        ensures
            handles@.no_duplicates(),
            forall|handle: MapTileHandle|
                handles@.contains(handle) <==> self@.contains_key(handle.pair()),
    {
        let keys = self.table.keys();
        handles_of(&keys)
    }

    /// Whether the map has a tile at the grid place `(x, z)`. The place may
    /// lie outside the grid that handles can name; no tile is there then.
    pub fn has_tile(&self, x: i64, z: i64) -> (held: bool)
        ensures
            held == has_tile_at(self@, x as int, z as int),
    {
        if x < i32::MIN as i64 || x > i32::MAX as i64 || z < i32::MIN as i64 || z > i32::MAX
            as i64 {
            return false;
        }
        self.contains(MapTileHandle::new(x as i32, z as i32))
    }

    /// The tile at the grid place `(x, z)`, if the map has one there. The
    /// place may lie outside the grid that handles can name; no tile is
    /// there then.
    pub fn tile_at(&self, x: i64, z: i64) -> (tile: Option<MapTile>)
        ensures
            tile == if has_tile_at(self@, x as int, z as int) {
                Some(self@[(x as i32, z as i32)])
            } else {
                None
            },
    {
        if x < i32::MIN as i64 || x > i32::MAX as i64 || z < i32::MIN as i64 || z > i32::MAX
            as i64 {
            return None;
        }
        self.get(MapTileHandle::new(x as i32, z as i32))
    }

    /// Makes the island: one untouched tile at every grid place within
    /// `radius` of the origin, on a grid of tiles `tile_size` steps wide.
    ///
    /// The grid coordinates must fit a handle, and the world coordinates of
    /// the farthest tiles an `i64`.
    pub fn generate(radius: u32, tile_size: u64) -> (map: WorldMap)
        requires
            island_fits(radius, tile_size),
        ensures
            map@ == island(radius as int, tile_size),
            map@.dom().finite(),
    {
        let r: i64 = radius as i64;
        let mut map = WorldMap::new();
        let mut x: i64 = -r;
        proof {
            assert forall|a: i32, b: i32| #[trigger]
                map@.contains_key((a, b)) <==> a < x && in_disc(a as int, b as int, r as int) by {
                if in_disc(a as int, b as int, r as int) {
                    lemma_disc_is_bounded(a as int, b as int, r as int);
                }
            }
        }
        while x < r
            invariant
                r == radius,
                radius <= i32::MAX,
                radius * tile_size <= i64::MAX,
                -r <= x <= r,
                map@.dom().finite(),
                forall|a: i32, b: i32| #[trigger]
                    map@.contains_key((a, b)) <==> a < x && in_disc(a as int, b as int, r as int),
                forall|a: i32, b: i32| #[trigger]
                    map@.contains_key((a, b)) ==> map@[(a, b)] == MapTile::fresh(
                        MapTileHandle { x: a, z: b },
                        tile_size,
                    ),
            decreases r - x,
        {
            let mut z: i64 = -r;
            proof {
                assert forall|a: i32, b: i32| #[trigger]
                    map@.contains_key((a, b)) <==> (a < x || (a == x && b < z)) && in_disc(
                        a as int,
                        b as int,
                        r as int,
                    ) by {
                    if in_disc(a as int, b as int, r as int) {
                        lemma_disc_is_bounded(a as int, b as int, r as int);
                    }
                }
            }
            while z < r
                invariant
                    r == radius,
                    radius <= i32::MAX,
                    radius * tile_size <= i64::MAX,
                    -r <= x < r,
                    -r <= z <= r,
                    map@.dom().finite(),
                    forall|a: i32, b: i32| #[trigger]
                        map@.contains_key((a, b)) <==> (a < x || (a == x && b < z)) && in_disc(
                            a as int,
                            b as int,
                            r as int,
                        ),
                    forall|a: i32, b: i32| #[trigger]
                        map@.contains_key((a, b)) ==> map@[(a, b)] == MapTile::fresh(
                            MapTileHandle { x: a, z: b },
                            tile_size,
                        ),
                decreases r - z,
            {
                let ghost before = map@;
                proof {
                    lemma_squares_fit(x as int, z as int, r as int);
                }
                if x * x + z * z < r * r {
                    proof {
                        lemma_disc_is_bounded(x as int, z as int, r as int);
                        lemma_position_fits(x as int, r as int, tile_size as int);
                        lemma_position_fits(z as int, r as int, tile_size as int);
                    }
                    let handle = MapTileHandle::new(x as i32, z as i32);
                    map.insert(handle, MapTile::new(handle, tile_size));
                }
                proof {
                    assert forall|a: i32, b: i32| #[trigger]
                        map@.contains_key((a, b)) <==> (a < x || (a == x && b < z + 1)) && in_disc(
                            a as int,
                            b as int,
                            r as int,
                        ) by {
                        assert(before.contains_key((a, b)) <==> (a < x || (a == x && b < z))
                            && in_disc(a as int, b as int, r as int));
                    }
                }
                z += 1;
            }
            proof {
                assert forall|a: i32, b: i32| #[trigger]
                    map@.contains_key((a, b)) <==> a < x + 1 && in_disc(
                        a as int,
                        b as int,
                        r as int,
                    ) by {
                    if in_disc(a as int, b as int, r as int) {
                        lemma_disc_is_bounded(a as int, b as int, r as int);
                    }
                }
            }
            x += 1;
        }
        proof {
            assert forall|a: i32, b: i32|
                map@.contains_key((a, b)) <==> in_disc(a as int, b as int, r as int) by {
                if in_disc(a as int, b as int, r as int) {
                    lemma_disc_is_bounded(a as int, b as int, r as int);
                }
            }
            assert(map@ =~= island(r as int, tile_size));
        }
        map
    }
}

/// With both coordinates within `radius` of zero, and `radius` within the
/// range of an `i32`, the squares and their sum fit an `i64`.
proof fn lemma_squares_fit(x: int, z: int, radius: int)
    requires
        0 <= radius <= i32::MAX,
        -radius <= x <= radius,
        -radius <= z <= radius,
    ensures
        0 <= x * x <= 0x4000_0000_0000_0000,
        0 <= z * z <= 0x4000_0000_0000_0000,
        0 <= radius * radius <= 0x4000_0000_0000_0000,
        x * x + z * z <= i64::MAX,
{
    assert(0 <= x * x <= 0x8000_0000 * 0x8000_0000) by (nonlinear_arith)
        requires
            -0x8000_0000 <= x <= 0x8000_0000,
    ;
    assert(0 <= z * z <= 0x8000_0000 * 0x8000_0000) by (nonlinear_arith)
        requires
            -0x8000_0000 <= z <= 0x8000_0000,
    ;
    assert(0 <= radius * radius <= 0x8000_0000 * 0x8000_0000) by (nonlinear_arith)
        requires
            0 <= radius <= 0x8000_0000,
    ;
    assert(x * x <= 0x7fff_ffff * 0x7fff_ffff) by (nonlinear_arith)
        requires
            -0x7fff_ffff <= x <= 0x7fff_ffff,
    ;
    assert(z * z <= 0x7fff_ffff * 0x7fff_ffff) by (nonlinear_arith)
        requires
            -0x7fff_ffff <= z <= 0x7fff_ffff,
    ;
}

/// A grid coordinate within `radius` of zero, times the tile size, stays
/// within `radius` times the tile size.
proof fn lemma_position_fits(x: int, radius: int, tile_size: int)
    requires
        -radius < x < radius,
        0 <= tile_size,
    ensures
        -(radius * tile_size) <= x * tile_size <= radius * tile_size,
{
    assert(-(radius * tile_size) <= x * tile_size <= radius * tile_size) by (nonlinear_arith)
        requires
            -radius < x < radius,
            0 <= tile_size,
    ;
}

} // verus!
