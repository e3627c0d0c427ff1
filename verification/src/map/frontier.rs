//! The shore of the island: the tiles that erosion can reach.

use crate::map::tables::{pairs_in, PairSet};
use crate::map::tile::{handles_of, MapTile, MapTileHandle, TileSinking};
use crate::map::world::{has_tile_at, in_disc, island, WorldMap};
use vstd::prelude::*;

verus! {

/// The tiles on the erosion frontier.
///
/// Seen as `leaves@`, it is the mathematical set of their grid pairs
/// `(x, z)`. Tiles only ever join the set: a tile that has sunk stays in it.
pub struct LeafTiles {
    set: PairSet,
}

/// The frontier without tiles.
pub open spec fn no_leaves() -> Set<(i32, i32)> {
    Set::empty()
}

/// Whether one of the four grid places next to `(x, z)` has no tile.
pub open spec fn lacks_neighbor(tiles: Map<(i32, i32), MapTile>, x: int, z: int) -> bool {
    ||| !has_tile_at(tiles, x - 1, z)
    ||| !has_tile_at(tiles, x + 1, z)
    ||| !has_tile_at(tiles, x, z - 1)
    ||| !has_tile_at(tiles, x, z + 1)
}

/// The frontier of a map on which nothing has sunk yet: the tiles that lack
/// at least one of their four neighbors.
pub open spec fn initial_frontier(tiles: Map<(i32, i32), MapTile>) -> Set<(i32, i32)> {
    Set::new(
        |pair: (i32, i32)|
            tiles.contains_key(pair) && lacks_neighbor(tiles, pair.0 as int, pair.1 as int),
    )
}

/// Whether the tile at `(x, z)` exists and has sunk.
pub open spec fn is_sunk_at(tiles: Map<(i32, i32), MapTile>, x: int, z: int) -> bool {
    has_tile_at(tiles, x, z) && tiles[(x as i32, z as i32)].sinking == TileSinking::Sunk
}

/// Whether one of the four grid places next to `(x, z)` has a sunk tile.
pub open spec fn beside_sunk(tiles: Map<(i32, i32), MapTile>, x: int, z: int) -> bool {
    ||| is_sunk_at(tiles, x - 1, z)
    ||| is_sunk_at(tiles, x + 1, z)
    ||| is_sunk_at(tiles, x, z - 1)
    ||| is_sunk_at(tiles, x, z + 1)
}

/// The tiles that sinking has laid open: those not sinking themselves that
/// lie next to a sunk tile.
pub open spec fn exposed(tiles: Map<(i32, i32), MapTile>) -> Set<(i32, i32)> {
    Set::new(
        |pair: (i32, i32)|
            {
                &&& tiles.contains_key(pair)
                &&& tiles[pair].sinking == TileSinking::NotSinking
                &&& beside_sunk(tiles, pair.0 as int, pair.1 as int)
            },
    )
}

/// The leaves that have not sunk: a leaf stays unless the map has its tile
/// and that tile is sunk.
pub open spec fn without_sunk(
    leaves: Set<(i32, i32)>,
    tiles: Map<(i32, i32), MapTile>,
) -> Set<(i32, i32)> {
    Set::new(
        |pair: (i32, i32)|
            leaves.contains(pair) && !(tiles.contains_key(pair) && tiles[pair].sinking
                == TileSinking::Sunk),
    )
}

/// Whether `leaves` holds the tile at `(x, z)` in case that tile exists and
/// is not sinking.
spec fn holds_if_afloat(
    leaves: Set<(i32, i32)>,
    tiles: Map<(i32, i32), MapTile>,
    x: int,
    z: int,
) -> bool {
    has_tile_at(tiles, x, z) && tiles[(x as i32, z as i32)].sinking == TileSinking::NotSinking
        ==> leaves.contains((x as i32, z as i32))
}

/// Whether `leaves` holds every tile next to `(x, z)` that is not sinking,
/// in case the tile at `(x, z)` has sunk.
spec fn neighbors_held(
    leaves: Set<(i32, i32)>,
    tiles: Map<(i32, i32), MapTile>,
    pair: (i32, i32),
) -> bool {
    tiles[pair].sinking == TileSinking::Sunk ==> {
        &&& holds_if_afloat(leaves, tiles, pair.0 - 1, pair.1 as int)
        &&& holds_if_afloat(leaves, tiles, pair.0 + 1, pair.1 as int)
        &&& holds_if_afloat(leaves, tiles, pair.0 as int, pair.1 - 1)
        &&& holds_if_afloat(leaves, tiles, pair.0 as int, pair.1 + 1)
    }
}

impl View for LeafTiles {
    type V = Set<(i32, i32)>;

    closed spec fn view(&self) -> Set<(i32, i32)> {
        pairs_in(self.set)
    }
}

impl Default for LeafTiles {
    fn default() -> (leaves: LeafTiles)
        ensures
            leaves@ == no_leaves(),
    {
        LeafTiles::new()
    }
}

impl LeafTiles {
    /// A frontier without tiles.
    pub fn new() -> (leaves: LeafTiles)
        ensures
            leaves@ == no_leaves(),
    {
        let set = PairSet::new();
        assert(pairs_in(set) =~= no_leaves());
        LeafTiles { set }
    }

    /// The number of tiles on the frontier.
    pub fn len(&self) -> (n: usize)
        ensures
            n == self@.len(),
    {
        self.set.len()
    }

    /// Whether the tile under `handle` is on the frontier.
    pub fn contains(&self, handle: MapTileHandle) -> (held: bool)
        ensures
            held == self@.contains(handle.pair()),
    {
        self.set.contains((handle.x, handle.z))
    }

    /// Puts the tile under `handle` on the frontier. Returns whether it is
    /// new there.
    pub fn insert(&mut self, handle: MapTileHandle) -> (fresh: bool)
        ensures
            final(self)@ == old(self)@.insert(handle.pair()),
            fresh == !old(self)@.contains(handle.pair()),
    {
        self.set.insert((handle.x, handle.z))
    }

    /// The handles of all tiles on the frontier, each once, in no
    /// particular order.
    pub fn handles(&self) -> (handles: Vec<MapTileHandle>)
        ensures
            handles@.no_duplicates(),
            forall|handle: MapTileHandle|
                handles@.contains(handle) <==> self@.contains(handle.pair()),
    {
        let items = self.set.items();
        handles_of(&items)
    }

    /// Picks one tile of the frontier at random: `None` if and only if the
    /// frontier is empty, and else one of its tiles, whichever chance
    /// brings.
    pub fn pick(&self) -> (picked: Option<MapTileHandle>)
        ensures
            picked is None <==> self@ == no_leaves(),
            picked matches Some(handle) ==> self@.contains(handle.pair()),
    {
        let picked = self.set.pick();
        match picked {
            Some(pair) => Some(MapTileHandle::new(pair.0, pair.1)),
            None => {
                assert(self@ =~= no_leaves());
                None
            },
        }
    }

    /// Finds the frontier of a freshly generated map: every tile that lacks
    /// at least one of its four neighbors.
    pub fn compute_initial_frontier(map: &WorldMap) -> (leaves: LeafTiles)
        ensures
            leaves@ == initial_frontier(map@),
    {
        let handles = map.handles();
        let mut leaves = LeafTiles::new();
        let mut i: usize = 0;
        while i < handles.len()
            invariant
                i <= handles.len(),
                forall|handle: MapTileHandle|
                    handles@.contains(handle) <==> map@.contains_key(handle.pair()),
                forall|pair: (i32, i32)|
                    leaves@.contains(pair) ==> initial_frontier(map@).contains(pair),
                forall|j: int|
                    0 <= j < i && lacks_neighbor(
                        map@,
                        handles[j].x as int,
                        handles[j].z as int,
                    ) ==> leaves@.contains(#[trigger] handles[j].pair()),
            decreases handles.len() - i,
        {
            let handle = handles[i];
            assert(handles@.contains(handle));
            let x: i64 = handle.x as i64;
            let z: i64 = handle.z as i64;
            let enclosed = map.has_tile(x - 1, z) && map.has_tile(x + 1, z) && map.has_tile(
                x,
                z - 1,
            ) && map.has_tile(x, z + 1);
            if !enclosed {
                leaves.insert(handle);
            }
            i += 1;
        }
        proof {
            assert forall|pair: (i32, i32)|
                initial_frontier(map@).contains(pair) implies leaves@.contains(pair) by {
                let handle = MapTileHandle { x: pair.0, z: pair.1 };
                assert(handles@.contains(handle));
                let j = choose|j: int| 0 <= j < handles.len() && handles[j] == handle;
                assert(handles[j].pair() == pair);
            }
        }
        leaves
    }

    /// Puts the tile at `(x, z)` on the frontier if it exists and is not
    /// sinking.
    fn expose(&mut self, map: &WorldMap, x: i64, z: i64)
        ensures
            final(self)@ == if has_tile_at(map@, x as int, z as int) && map@[(
                x as i32,
                z as i32,
            )].sinking == TileSinking::NotSinking {
                old(self)@.insert((x as i32, z as i32))
            } else {
                old(self)@
            },
    {
        match map.tile_at(x, z) {
            Some(tile) => {
                if tile.sinking == TileSinking::NotSinking {
                    self.insert(MapTileHandle::new(x as i32, z as i32));
                }
            },
            None => {},
        }
    }

    /// Takes the sunk tiles off the frontier, so that erosion picks only
    /// tiles that can still go under. Play itself never does this: it
    /// leaves sunk tiles on the frontier, where erosion may pick them to no
    /// effect. A caller that wants them gone prunes right after
    /// `refresh_frontier`, once the neighbors of the sunk tiles have come
    /// in. Where every leaf has sunk the frontier is empty afterwards.
    pub fn prune_sunk(&mut self, map: &WorldMap)
        ensures
            final(self)@ == without_sunk(old(self)@, map@),
    {
        let handles = self.handles();
        let mut kept = LeafTiles::new();
        let mut i: usize = 0;
        while i < handles.len()
            invariant
                i <= handles.len(),
                forall|handle: MapTileHandle|
                    handles@.contains(handle) <==> self@.contains(handle.pair()),
                forall|pair: (i32, i32)|
                    kept@.contains(pair) ==> without_sunk(self@, map@).contains(pair),
                forall|j: int|
                    0 <= j < i && without_sunk(self@, map@).contains(handles[j].pair())
                        ==> kept@.contains(#[trigger] handles[j].pair()),
            decreases handles.len() - i,
        {
            let handle = handles[i];
            assert(handles@.contains(handle));
            let sunk = match map.get(handle) {
                Some(tile) => tile.sinking == TileSinking::Sunk,
                None => false,
            };
            if !sunk {
                kept.insert(handle);
            }
            i += 1;
        }
        proof {
            assert forall|pair: (i32, i32)|
                without_sunk(self@, map@).contains(pair) implies kept@.contains(pair) by {
                let handle = MapTileHandle { x: pair.0, z: pair.1 };
                assert(handles@.contains(handle));
                let j = choose|j: int| 0 <= j < handles.len() && handles[j] == handle;
                assert(handles[j].pair() == pair);
            }
        }
        self.set = kept.set;
    }

    /// Takes in what sinking has laid open: every tile that is not sinking
    /// and lies next to a sunk tile joins the frontier. No tile leaves it.
    pub fn refresh_frontier(&mut self, map: &WorldMap)
        ensures
            final(self)@ == old(self)@.union(exposed(map@)),
    {
        let handles = map.handles();
        let mut i: usize = 0;
        while i < handles.len()
            invariant
                i <= handles.len(),
                forall|handle: MapTileHandle|
                    handles@.contains(handle) <==> map@.contains_key(handle.pair()),
                forall|pair: (i32, i32)| old(self)@.contains(pair) ==> self@.contains(pair),
                forall|pair: (i32, i32)|
                    self@.contains(pair) ==> old(self)@.contains(pair) || exposed(map@).contains(
                        pair,
                    ),
                forall|j: int|
                    0 <= j < i ==> neighbors_held(self@, map@, #[trigger] handles[j].pair()),
            decreases handles.len() - i,
        {
            let handle = handles[i];
            assert(handles@.contains(handle));
            let tile = map.get(handle);
            let sunk = match tile {
                Some(tile) => tile.sinking == TileSinking::Sunk,
                None => false,
            };
            if sunk {
                let x: i64 = handle.x as i64;
                let z: i64 = handle.z as i64;
                self.expose(map, x - 1, z);
                self.expose(map, x + 1, z);
                self.expose(map, x, z - 1);
                self.expose(map, x, z + 1);
            }
            i += 1;
        }
        proof {
            assert forall|pair: (i32, i32)| exposed(map@).contains(pair) implies self@.contains(
                pair,
            ) by {
                let (x, z) = (pair.0 as int, pair.1 as int);
                let from: (int, int) = if is_sunk_at(map@, x - 1, z) {
                    (x - 1, z)
                } else if is_sunk_at(map@, x + 1, z) {
                    (x + 1, z)
                } else if is_sunk_at(map@, x, z - 1) {
                    (x, z - 1)
                } else {
                    (x, z + 1)
                };
                assert(is_sunk_at(map@, from.0, from.1));
                let sunk = MapTileHandle { x: from.0 as i32, z: from.1 as i32 };
                assert(handles@.contains(sunk));
                let j = choose|j: int| 0 <= j < handles.len() && handles[j] == sunk;
                assert(neighbors_held(self@, map@, handles[j].pair()));
                assert(holds_if_afloat(self@, map@, x, z));
            }
        }
    }
}

/// The frontier of a fresh island is never empty: the tile farthest out
/// along x, at `(radius - 1, 0)`, has no neighbor at `(radius, 0)`.
pub proof fn lemma_island_frontier_is_not_empty(radius: u32, tile_size: u64)
    requires
        1 <= radius <= i32::MAX,
    ensures
        initial_frontier(island(radius as int, tile_size)).contains(((radius - 1) as i32, 0i32)),
        initial_frontier(island(radius as int, tile_size)) != no_leaves(),
{
    let r = radius as int;
    let tiles = island(r, tile_size);
    let edge = ((radius - 1) as i32, 0i32);
    assert(in_disc(r - 1, 0, r)) by (nonlinear_arith)
        requires
            1 <= r,
    ;
    assert(tiles.contains_key(edge));
    assert(!has_tile_at(tiles, edge.0 + 1, edge.1 as int));
    assert(initial_frontier(tiles).contains(edge));
}

/// A tile with all four neighbors is not on the initial frontier.
pub proof fn lemma_frontier_excludes_interior(tiles: Map<(i32, i32), MapTile>, pair: (i32, i32))
    requires
        has_tile_at(tiles, pair.0 - 1, pair.1 as int),
        has_tile_at(tiles, pair.0 + 1, pair.1 as int),
        has_tile_at(tiles, pair.0 as int, pair.1 - 1),
        has_tile_at(tiles, pair.0 as int, pair.1 + 1),
    ensures
        !initial_frontier(tiles).contains(pair),
{
}

/// On a fresh island of radius 2 or more the tile at the origin has all
/// four neighbors, so the frontier is only a part of the island.
pub proof fn lemma_island_has_interior(radius: u32, tile_size: u64)
    requires
        2 <= radius <= i32::MAX,
    ensures
        island(radius as int, tile_size).contains_key((0i32, 0i32)),
        !initial_frontier(island(radius as int, tile_size)).contains((0i32, 0i32)),
{
    let r = radius as int;
    let tiles = island(r, tile_size);
    assert(4 <= r * r) by (nonlinear_arith)
        requires
            2 <= r,
    ;
    assert(in_disc(-1, 0, r) && in_disc(1, 0, r) && in_disc(0, -1, r) && in_disc(0, 1, r));
    lemma_frontier_excludes_interior(tiles, (0i32, 0i32));
}

} // verus!
