//! Erosion of the shore, and the sinking of tiles that it has worn down.

use crate::map::frontier::{no_leaves, LeafTiles};
use crate::map::tile::{MapTile, MapTileHandle, TileOp};
use crate::map::world::WorldMap;
use vstd::prelude::*;

verus! {

/// How a step of erosion ended.
#[derive(Clone, Copy, Debug, PartialEq, Eq, Structural)]
pub enum Erosion {
    /// The tile under the handle was picked and lost constitution.
    Eroded(MapTileHandle),
    /// The frontier was empty, so nothing was picked. While tiles are still
    /// afloat this should not happen; it is worth a line in the log.
    NoLeaf,
    /// The handle was picked, but the map has no tile under it. Nothing was
    /// eroded.
    MissingTile(MapTileHandle),
}

/// Whether `op` leaves `tile` exactly as it is, so that the tile need not
/// be written back.
fn leaves_alone(op: TileOp, tile: &MapTile) -> (skip: bool)
    ensures
        skip == (tile.after(op) == *tile),
{
    tile.apply(op) == *tile
}

/// The tiles after erosion has worked on the tile under `pair`; the same
/// tiles if there is no such tile.
pub open spec fn eroded_at(
    tiles: Map<(i32, i32), MapTile>,
    pair: (i32, i32),
    rate: u32,
    dt: u64,
) -> Map<(i32, i32), MapTile> {
    if tiles.contains_key(pair) {
        tiles.insert(pair, tiles[pair].eroded(rate, dt))
    } else {
        tiles
    }
}

impl Erosion {
    /// The grid pair that was picked, if one was.
    pub open spec fn picked(self) -> Option<(i32, i32)> {
        match self {
            Erosion::Eroded(handle) => Some(handle.pair()),
            Erosion::NoLeaf => None,
            Erosion::MissingTile(handle) => Some(handle.pair()),
        }
    }

    /// Whether this is how a step of erosion on `tiles` ends when chance
    /// picks from `leaves`: no pick if and only if there are no leaves, and
    /// else a leaf, which is eroded if and only if the map has its tile.
    pub open spec fn fits(self, tiles: Map<(i32, i32), MapTile>, leaves: Set<(i32, i32)>) -> bool {
        match self {
            Erosion::Eroded(handle) => leaves.contains(handle.pair()) && tiles.contains_key(
                handle.pair(),
            ),
            Erosion::NoLeaf => leaves == no_leaves(),
            Erosion::MissingTile(handle) => leaves.contains(handle.pair()) && !tiles.contains_key(
                handle.pair(),
            ),
        }
    }

    /// The tiles after a step of erosion that ended like this.
    pub open spec fn outcome(
        self,
        tiles: Map<(i32, i32), MapTile>,
        rate: u32,
        dt: u64,
    ) -> Map<(i32, i32), MapTile> {
        match self.picked() {
            Some(pair) => eroded_at(tiles, pair, rate, dt),
            None => tiles,
        }
    }
}

impl WorldMap {
    /// Does `op` to every tile of the map.
    fn for_each_tile(&mut self, op: TileOp)
        ensures
            final(self)@.dom() == old(self)@.dom(),
            forall|pair: (i32, i32)| #[trigger]
                old(self)@.contains_key(pair) ==> final(self)@[pair] == old(self)@[pair].after(op),
    {
        let handles = self.handles();
        let mut i: usize = 0;
        while i < handles.len()
            invariant
                i <= handles.len(),
                handles@.no_duplicates(),
                forall|handle: MapTileHandle|
                    handles@.contains(handle) <==> old(self)@.contains_key(handle.pair()),
                self@.dom() == old(self)@.dom(),
                forall|j: int|
                    0 <= j < i ==> self@[#[trigger] handles[j].pair()] == old(
                        self,
                    )@[handles[j].pair()].after(op),
                forall|j: int|
                    i <= j < handles.len() ==> self@[#[trigger] handles[j].pair()] == old(
                        self,
                    )@[handles[j].pair()],
            decreases handles.len() - i,
        {
            let handle = handles[i];
            let ghost before = self@;
            assert(handles@.contains(handle));
            match self.get(handle) {
                Some(tile) => {
                    if !leaves_alone(op, &tile) {
                        self.insert(handle, tile.apply(op));
                    }
                },
                None => {},
            }
            proof {
                assert forall|j: int|
                    0 <= j < handles.len() && j != i implies self@[handles[j].pair()]
                    == before[handles[j].pair()] by {
                    assert(handles[j] != handles[i as int]);
                }
            }
            i += 1;
        }
        proof {
            assert forall|pair: (i32, i32)| #[trigger]
                old(self)@.contains_key(pair) implies self@[pair] == old(self)@[pair].after(op) by {
                let handle = MapTileHandle { x: pair.0, z: pair.1 };
                assert(handles@.contains(handle));
                let j = choose|j: int| 0 <= j < handles.len() && handles[j] == handle;
                assert(handles[j].pair() == pair);
            }
        }
    }

    /// Starts every tile sinking that is not sinking yet and whose
    /// constitution has fallen below zero. All other tiles stay as they
    /// are, so a second call changes nothing.
    pub fn promote_if_critical(&mut self)
        ensures
            final(self)@ == old(self)@.map_values(|tile: MapTile| tile.promoted()),
    {
        self.for_each_tile(TileOp::Promote);
        assert(self@ =~= old(self)@.map_values(|tile: MapTile| tile.promoted()));
    }

    /// Lets every sinking tile sink for `dt` nanoseconds: it falls by one
    /// step per nanosecond, and is sunk once that has taken it deeper than
    /// the sink depth. All other tiles stay as they are.
    pub fn advance_sink(&mut self, dt: u64)
        ensures
            final(self)@ == old(self)@.map_values(|tile: MapTile| tile.sunk_by(dt)),
    {
        self.for_each_tile(TileOp::Sink { dt });
        assert(self@ =~= old(self)@.map_values(|tile: MapTile| tile.sunk_by(dt)));
    }

    /// Lets erosion at `rate` millionths per second work for `dt`
    /// nanoseconds on the tile under `handle`. Returns whether the map has
    /// such a tile; without one nothing changes.
    pub fn erode_tile(&mut self, handle: MapTileHandle, rate: u32, dt: u64) -> (found: bool)
        ensures
            found == old(self)@.contains_key(handle.pair()),
            final(self)@ == eroded_at(old(self)@, handle.pair(), rate, dt),
    {
        match self.get(handle) {
            Some(tile) => {
                self.insert(handle, tile.erode(rate, dt));
                true
            },
            None => false,
        }
    }

    /// One step of erosion: picks a tile of the frontier at random and lets
    /// erosion at `rate` millionths per second work on it for `dt`
    /// nanoseconds.
    ///
    /// Which tile is picked is left to chance. Whatever the pick, the
    /// result names it, and the map afterwards is the map before with that
    /// one tile eroded. With an empty frontier nothing is picked and
    /// nothing changes.
    pub fn erode_step(&mut self, leaves: &LeafTiles, rate: u32, dt: u64) -> (erosion: Erosion)
        ensures
            erosion.fits(old(self)@, leaves@),
            final(self)@ == erosion.outcome(old(self)@, rate, dt),
    {
        match leaves.pick() {
            Some(handle) => {
                if self.erode_tile(handle, rate, dt) {
                    Erosion::Eroded(handle)
                } else {
                    Erosion::MissingTile(handle)
                }
            },
            None => Erosion::NoLeaf,
        }
    }
}

/// Starting the worn tiles of a map sinking a second time changes nothing.
pub proof fn lemma_promoting_twice_is_promoting_once(tiles: Map<(i32, i32), MapTile>)
    ensures
        tiles.map_values(|tile: MapTile| tile.promoted()).map_values(
            |tile: MapTile| tile.promoted(),
        ) == tiles.map_values(|tile: MapTile| tile.promoted()),
{
    assert(tiles.map_values(|tile: MapTile| tile.promoted()).map_values(
        |tile: MapTile| tile.promoted(),
    ) =~= tiles.map_values(|tile: MapTile| tile.promoted()));
}

/// A step of erosion loses no tile and adds none, and wears down at most
/// the one tile it picked.
pub proof fn lemma_erosion_touches_one_tile(
    tiles: Map<(i32, i32), MapTile>,
    erosion: Erosion,
    rate: u32,
    dt: u64,
)
    ensures
        erosion.outcome(tiles, rate, dt).dom() == tiles.dom(),
        forall|pair: (i32, i32)| #[trigger]
            tiles.contains_key(pair) && erosion.picked() != Some(pair) ==> erosion.outcome(
                tiles,
                rate,
                dt,
            )[pair] == tiles[pair],
        forall|pair: (i32, i32)| #[trigger]
            tiles.contains_key(pair) && erosion.picked() == Some(pair) ==> erosion.outcome(
                tiles,
                rate,
                dt,
            )[pair] == tiles[pair].eroded(rate, dt),
{
    assert(erosion.outcome(tiles, rate, dt).dom() =~= tiles.dom());
}

} // verus!
