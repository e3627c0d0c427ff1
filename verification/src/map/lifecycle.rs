//! The phases of a map, from its making to its end, and what runs in each.

use crate::map::descriptor::MapDescriptor;
use crate::map::erosion::{lemma_erosion_touches_one_tile, Erosion};
use crate::map::frontier::{
    exposed, initial_frontier, lemma_island_frontier_is_not_empty, no_leaves, LeafTiles,
};
use crate::map::tile::{
    count_hits, lemma_worn_tile_goes_under, MapTile, TileSinking, FULL_CONSTITUTION, SINK_DEPTH,
};
use crate::map::world::{island, no_tiles, WorldMap};
use vstd::prelude::*;

verus! {

/// The phase a map is in.
///
/// A map is made, then shown, then played on, then taken down; after that
/// the next one is made.
#[derive(Clone, Copy, Debug, Hash, PartialEq, Eq, Structural)]
pub enum MapState {
    /// The island and its frontier are being made.
    CreateMap,
    /// The tiles are being handed to the renderer and the physics engine.
    SpawnMap,
    /// The game runs. Only now tiles erode and sink.
    GamePlay,
    /// What was shown is taken away and the map is emptied.
    DespawnMap,
}

impl Default for MapState {
    fn default() -> (state: MapState)
        ensures
            state == MapState::CreateMap,
    {
        MapState::CreateMap
    }
}

impl MapState {
    /// The phase that follows this one.
    pub open spec fn next(self) -> MapState {
        match self {
            MapState::CreateMap => MapState::SpawnMap,
            MapState::SpawnMap => MapState::GamePlay,
            MapState::GamePlay => MapState::DespawnMap,
            MapState::DespawnMap => MapState::CreateMap,
        }
    }

    /// The phase that follows this one.
    pub fn advance(self) -> (state: MapState)
        ensures
            state == self.next(),
    {
        match self {
            MapState::CreateMap => MapState::SpawnMap,
            MapState::SpawnMap => MapState::GamePlay,
            MapState::GamePlay => MapState::DespawnMap,
            MapState::DespawnMap => MapState::CreateMap,
        }
    }
}

/// A map with its frontier and the phase it is in.
pub struct MapSession {
    pub state: MapState,
    pub map: WorldMap,
    pub leaves: LeafTiles,
}

/// The tiles after one tick of play of `dt` nanoseconds in which erosion
/// ended as `erosion` says: the picked tile is eroded, then every tile
/// whose constitution is below zero starts to sink, then every sinking tile
/// sinks.
pub open spec fn tiles_after_tick(
    tiles: Map<(i32, i32), MapTile>,
    erosion: Erosion,
    rate: u32,
    dt: u64,
) -> Map<(i32, i32), MapTile> {
    erosion.outcome(tiles, rate, dt).map_values(|tile: MapTile| tile.promoted()).map_values(
        |tile: MapTile| tile.sunk_by(dt),
    )
}

/// The tiles after one tick of play for each entry of `picks`, in turn: the
/// entry says how erosion ended in that tick.
pub open spec fn tiles_after_ticks(
    tiles: Map<(i32, i32), MapTile>,
    picks: Seq<Erosion>,
    rate: u32,
    dt: u64,
) -> Map<(i32, i32), MapTile>
    decreases picks.len(),
{
    if picks.len() == 0 {
        tiles
    } else {
        tiles_after_ticks(
            tiles_after_tick(tiles, picks[0], rate, dt),
            picks.drop_first(),
            rate,
            dt,
        )
    }
}

/// For each tick of a run, whether erosion picked the tile at `pair`.
pub open spec fn hits_on(picks: Seq<Erosion>, pair: (i32, i32)) -> Seq<bool> {
    Seq::new(picks.len(), |tick: int| picks[tick].picked() == Some(pair))
}

/// The frontier after the same tick: what sinking had laid open when the
/// tick began joins it. A tile that only sinks in this tick lays its
/// neighbors open in the next.
pub open spec fn leaves_after_tick(
    tiles: Map<(i32, i32), MapTile>,
    leaves: Set<(i32, i32)>,
    erosion: Erosion,
    rate: u32,
    dt: u64,
) -> Set<(i32, i32)> {
    leaves.union(exposed(erosion.outcome(tiles, rate, dt)))
}

impl MapSession {
    /// Every tile on the frontier is a tile of the map. `new` and `create`
    /// make it so and every other step keeps it so; on a session where it
    /// holds, erosion never picks a tile that the map lacks.
    pub open spec fn sound(&self) -> bool {
        self.leaves@.subset_of(self.map@.dom())
    }

    /// A session about to make its map: no tiles, no frontier.
    pub fn new() -> (session: MapSession)
        ensures
            session.state == MapState::CreateMap,
            session.map@ == no_tiles(),
            session.leaves@ == no_leaves(),
            session.sound(),
    {
        MapSession { state: MapState::CreateMap, map: WorldMap::new(), leaves: LeafTiles::new() }
    }

    /// Makes the island and its frontier and moves on to `SpawnMap`. Does
    /// nothing, and says so, in any phase but `CreateMap`, and where no
    /// island can be made with these settings.
    pub fn create(&mut self, des: &MapDescriptor) -> (done: bool)
        ensures
            done == (old(self).state == MapState::CreateMap && des.fits()),
            done ==> final(self).state == MapState::SpawnMap,
            done ==> final(self).map@ == island(des.radius as int, des.tile_size),
            done ==> final(self).leaves@ == initial_frontier(final(self).map@),
            done ==> final(self).sound(),
            done && des.radius >= 1 ==> final(self).leaves@ != no_leaves(),
            !done ==> final(self).state == old(self).state,
            !done ==> final(self).map@ == old(self).map@,
            !done ==> final(self).leaves@ == old(self).leaves@,
    {
        match self.state {
            MapState::CreateMap => {
                if !des.is_fit() {
                    return false;
                }
                self.map = WorldMap::generate(des.radius, des.tile_size);
                self.leaves = LeafTiles::compute_initial_frontier(&self.map);
                self.state = MapState::SpawnMap;
                proof {
                    if des.radius >= 1 {
                        lemma_island_frontier_is_not_empty(des.radius, des.tile_size);
                    }
                }
                true
            },
            _ => false,
        }
    }

    /// Moves on to `GamePlay` once every tile has been shown. Does
    /// nothing, and says so, in any phase but `SpawnMap`.
    pub fn spawned(&mut self) -> (done: bool)
        ensures
            done == (old(self).state == MapState::SpawnMap),
            final(self).state == if done {
                MapState::GamePlay
            } else {
                old(self).state
            },
            final(self).map@ == old(self).map@,
            final(self).leaves@ == old(self).leaves@,
    {
        match self.state {
            MapState::SpawnMap => {
                self.state = MapState::GamePlay;
                true
            },
            _ => false,
        }
    }

    /// One tick of play of `dt` nanoseconds, with erosion at `rate`
    /// millionths per second: a step of erosion, then the frontier takes in
    /// what sinking has laid open, then worn-down tiles start to sink, then
    /// sinking tiles sink.
    ///
    /// In any phase but `GamePlay` nothing happens and the result is
    /// `None`. In `GamePlay` the result says how the step of erosion
    /// ended; which leaf it picked is left to chance, and map and frontier
    /// are what that pick makes of them.
    pub fn tick(&mut self, rate: u32, dt: u64) -> (erosion: Option<Erosion>)
        ensures
            final(self).state == old(self).state,
            erosion is Some <==> old(self).state == MapState::GamePlay,
            erosion is None ==> final(self).map@ == old(self).map@,
            erosion is None ==> final(self).leaves@ == old(self).leaves@,
            erosion matches Some(e) ==> e.fits(old(self).map@, old(self).leaves@),
            erosion matches Some(e) ==> final(self).map@ == tiles_after_tick(
                old(self).map@,
                e,
                rate,
                dt,
            ),
            erosion matches Some(e) ==> final(self).leaves@ == leaves_after_tick(
                old(self).map@,
                old(self).leaves@,
                e,
                rate,
                dt,
            ),
            old(self).sound() ==> final(self).sound(),
            old(self).leaves@ != no_leaves() ==> final(self).leaves@ != no_leaves(),
            old(self).sound() && old(self).state == MapState::GamePlay && old(self).leaves@
                != no_leaves() ==> erosion matches Some(Erosion::Eroded(_)),
    {
        match self.state {
            MapState::GamePlay => {
                let erosion = self.map.erode_step(&self.leaves, rate, dt);
                self.leaves.refresh_frontier(&self.map);
                self.map.promote_if_critical();
                self.map.advance_sink(dt);
                proof {
                    lemma_tick_only_wears_down(
                        old(self).map@,
                        old(self).leaves@,
                        erosion,
                        rate,
                        dt,
                    );
                    lemma_erosion_touches_one_tile(old(self).map@, erosion, rate, dt);
                }
                Some(erosion)
            },
            _ => None,
        }
    }

    /// Ends play and moves on to `DespawnMap`. Does nothing, and says so,
    /// in any phase but `GamePlay`.
    pub fn finish(&mut self) -> (done: bool)
        ensures
            done == (old(self).state == MapState::GamePlay),
            final(self).state == if done {
                MapState::DespawnMap
            } else {
                old(self).state
            },
            final(self).map@ == old(self).map@,
            final(self).leaves@ == old(self).leaves@,
    {
        match self.state {
            MapState::GamePlay => {
                self.state = MapState::DespawnMap;
                true
            },
            _ => false,
        }
    }

    /// Empties map and frontier and moves on to `CreateMap`, ready for the
    /// next island. Does nothing, and says so, in any phase but
    /// `DespawnMap`.
    pub fn despawn(&mut self) -> (done: bool)
        ensures
            done == (old(self).state == MapState::DespawnMap),
            done ==> final(self).state == MapState::CreateMap,
            done ==> final(self).map@ == no_tiles(),
            done ==> final(self).leaves@ == no_leaves(),
            done ==> final(self).sound(),
            !done ==> final(self).state == old(self).state,
            !done ==> final(self).map@ == old(self).map@,
            !done ==> final(self).leaves@ == old(self).leaves@,
    {
        match self.state {
            MapState::DespawnMap => {
                self.map = WorldMap::new();
                self.leaves = LeafTiles::new();
                self.state = MapState::CreateMap;
                true
            },
            _ => false,
        }
    }
}

/// A tick of play loses no tile and adds none, moves no tile back to an
/// earlier sinking state, and takes no tile off the frontier.
pub proof fn lemma_tick_only_wears_down(
    tiles: Map<(i32, i32), MapTile>,
    leaves: Set<(i32, i32)>,
    erosion: Erosion,
    rate: u32,
    dt: u64,
)
    ensures
        tiles_after_tick(tiles, erosion, rate, dt).dom() == tiles.dom(),
        forall|pair: (i32, i32)| #[trigger]
            tiles.contains_key(pair) ==> tiles_after_tick(
                tiles,
                erosion,
                rate,
                dt,
            )[pair].sinking.rank() >= tiles[pair].sinking.rank(),
        leaves.subset_of(leaves_after_tick(tiles, leaves, erosion, rate, dt)),
{
    let after = tiles_after_tick(tiles, erosion, rate, dt);
    assert(after.dom() =~= tiles.dom());
    assert forall|pair: (i32, i32)| #[trigger]
        tiles.contains_key(pair) implies after[pair].sinking.rank()
        >= tiles[pair].sinking.rank() by {
        let tile = tiles[pair];
        let worn = erosion.outcome(tiles, rate, dt)[pair];
        assert(worn == tile || worn == tile.eroded(rate, dt));
        assert(after[pair] == worn.promoted().sunk_by(dt));
    }
}

/// Through a run of ticks every tile of the map goes its own way: it is
/// eroded in the ticks in which erosion picked it, and promoted and sunk
/// in every tick.
pub proof fn lemma_ticks_follow_each_tile(
    tiles: Map<(i32, i32), MapTile>,
    picks: Seq<Erosion>,
    pair: (i32, i32),
    rate: u32,
    dt: u64,
)
    requires
        tiles.contains_key(pair),
    ensures
        tiles_after_ticks(tiles, picks, rate, dt).contains_key(pair),
        tiles_after_ticks(tiles, picks, rate, dt)[pair] == tiles[pair].ticked_through(
            hits_on(picks, pair),
            rate,
            dt,
        ),
    decreases picks.len(),
{
    if picks.len() > 0 {
        let next = tiles_after_tick(tiles, picks[0], rate, dt);
        let worn = picks[0].outcome(tiles, rate, dt);
        assert(worn.contains_key(pair));
        assert(worn[pair] == if picks[0].picked() == Some(pair) {
            tiles[pair].eroded(rate, dt)
        } else {
            tiles[pair]
        });
        assert(next[pair] == tiles[pair].ticked(hits_on(picks, pair)[0], rate, dt));
        assert(hits_on(picks, pair).drop_first() =~= hits_on(picks.drop_first(), pair));
        lemma_ticks_follow_each_tile(next, picks.drop_first(), pair, rate, dt);
    }
}

/// A tile that erosion has picked often enough early enough has sunk at the
/// end of a run of ticks: if the picks within the first `within` ticks take
/// more than its constitution, and the ticks after those take it lower
/// than the sink depth, the map has it sunk after the last tick.
pub proof fn lemma_worn_tile_has_sunk(
    tiles: Map<(i32, i32), MapTile>,
    picks: Seq<Erosion>,
    pair: (i32, i32),
    within: int,
    rate: u32,
    dt: u64,
)
    requires
        tiles.contains_key(pair),
        0 < within < picks.len(),
        tiles[pair].constitution < count_hits(hits_on(picks, pair).take(within)) * (rate * dt),
        tiles[pair].position.y - (picks.len() - within) * dt < SINK_DEPTH,
    ensures
        tiles_after_ticks(tiles, picks, rate, dt).contains_key(pair),
        tiles_after_ticks(tiles, picks, rate, dt)[pair].sinking == TileSinking::Sunk,
{
    lemma_ticks_follow_each_tile(tiles, picks, pair, rate, dt);
    lemma_worn_tile_goes_under(tiles[pair], hits_on(picks, pair), within, rate, dt);
}

/// On a map of untouched tiles, a hundred ticks of a tenth of a second at
/// three full constitutions per second leave a tile sunk, whichever tile
/// erosion has picked at least four times within the first sixty ticks.
pub proof fn lemma_four_hits_in_sixty_ticks_sink_a_tile(
    tiles: Map<(i32, i32), MapTile>,
    picks: Seq<Erosion>,
    pair: (i32, i32),
)
    requires
        tiles.contains_key(pair),
        tiles[pair].constitution <= FULL_CONSTITUTION,
        tiles[pair].position.y <= 0,
        picks.len() == 100,
        count_hits(hits_on(picks, pair).take(60)) >= 4,
    ensures
        tiles_after_ticks(tiles, picks, 3_000_000, 100_000_000)[pair].sinking
            == TileSinking::Sunk,
{
    let hits = count_hits(hits_on(picks, pair).take(60));
    assert(hits * (3_000_000u32 * 100_000_000u64) >= 4 * 300_000_000_000_000) by (nonlinear_arith)
        requires
            hits >= 4,
    ;
    lemma_worn_tile_has_sunk(tiles, picks, pair, 60, 3_000_000, 100_000_000);
}

} // verus!
