//! One tile of the island and what erosion does to it.

use crate::units::WorldPoint;
use vstd::prelude::*;

verus! {

/// The constitution of an untouched tile, 1.0, in grains. Constitution is
/// counted in grains so fine that erosion at one millionth per second takes
/// one grain per nanosecond.
pub const FULL_CONSTITUTION: i64 = 1_000_000_000_000_000;

/// A sinking tile is sunk once it is lower than this, in steps: 3 world
/// units under the surface.
pub const SINK_DEPTH: i64 = -3_000_000_000;

/// The place of a tile on the square grid. Two handles are the same tile if
/// and only if both coordinates agree.
#[derive(Clone, Copy, Debug, Hash, PartialEq, Eq, Structural)]
pub struct MapTileHandle {
    pub x: i32,
    pub z: i32,
}

/// How far a tile has gone under. A tile only ever moves forward through
/// the three states.
#[derive(Clone, Copy, Debug, PartialEq, Eq, Structural)]
pub enum TileSinking {
    NotSinking,
    Sinking,
    Sunk,
}

/// A tile: where it is drawn, how much erosion it can still take, and how
/// far it has gone under.
#[derive(Clone, Copy, Debug, PartialEq, Eq, Structural)]
pub struct MapTile {
    /// The tile's place in the world. `y` is the height at which the tile
    /// is drawn; it starts at zero and falls while the tile sinks.
    pub position: WorldPoint,
    /// What is left of the tile's structure, in grains. Erosion lowers it;
    /// below zero the tile starts to sink.
    pub constitution: i64,
    pub sinking: TileSinking,
}

/// One of the things that play does to a tile.
#[derive(Clone, Copy, Debug, PartialEq, Eq, Structural)]
pub enum TileOp {
    /// Erosion at `rate` millionths per second works on the tile for `dt`
    /// nanoseconds.
    Erode { rate: u32, dt: u64 },
    /// The tile starts to sink if its constitution is critical.
    Promote,
    /// The tile sinks for `dt` nanoseconds if it is sinking.
    Sink { dt: u64 },
}

/// `v`, held at the lowest value an `i64` can carry.
pub open spec fn held_above_floor(v: int) -> int {
    if v < i64::MIN {
        i64::MIN as int
    } else {
        v
    }
}

/// The handle of the tile at a grid pair.
pub open spec fn handle_of(pair: (i32, i32)) -> MapTileHandle {
    MapTileHandle { x: pair.0, z: pair.1 }
}

/// The handles of the tiles at `pairs`, in the same order. Pairs that are
/// all different give handles that are all different.
pub(crate) fn handles_of(pairs: &Vec<(i32, i32)>) -> (handles: Vec<MapTileHandle>)
    ensures
        handles@ == pairs@.map_values(|pair: (i32, i32)| handle_of(pair)),
        pairs@.no_duplicates() ==> handles@.no_duplicates(),
        forall|handle: MapTileHandle| handles@.contains(handle) <==> pairs@.contains(handle.pair()),
{
    let mut handles: Vec<MapTileHandle> = Vec::new();
    let mut i: usize = 0;
    while i < pairs.len()
        invariant
            i <= pairs.len(),
            handles.len() == i,
            forall|j: int| 0 <= j < i ==> #[trigger] handles[j] == handle_of(pairs[j]),
        decreases pairs.len() - i,
    {
        let pair = pairs[i];
        handles.push(MapTileHandle::new(pair.0, pair.1));
        i += 1;
    }
    proof {
        assert(handles@ =~= pairs@.map_values(|pair: (i32, i32)| handle_of(pair)));
        if pairs@.no_duplicates() {
            assert forall|a: int, b: int|
                0 <= a < handles.len() && 0 <= b < handles.len() && a != b implies handles[a]
                != handles[b] by {
                assert(pairs[a] != pairs[b]);
            }
        }
        assert forall|handle: MapTileHandle|
            handles@.contains(handle) <==> pairs@.contains(handle.pair()) by {
            if handles@.contains(handle) {
                let j = choose|j: int| 0 <= j < handles.len() && handles[j] == handle;
                assert(pairs[j] == handle.pair());
            }
            if pairs@.contains(handle.pair()) {
                let j = choose|j: int| 0 <= j < pairs.len() && pairs[j] == handle.pair();
                assert(handles[j] == handle);
            }
        }
    }
    handles
}

impl MapTileHandle {
    /// The handle of the tile at the grid place `(x, z)`.
    pub fn new(x: i32, z: i32) -> (h: MapTileHandle)
        ensures
            h.x == x,
            h.z == z,
    {
        MapTileHandle { x, z }
    }

    /// The handle as a pair `(x, z)`.
    pub open spec fn pair(self) -> (i32, i32) {
        (self.x, self.z)
    }
}

impl TileSinking {
    /// The state's place in the order not sinking, sinking, sunk.
    pub open spec fn rank(self) -> nat {
        match self {
            TileSinking::NotSinking => 0,
            TileSinking::Sinking => 1,
            TileSinking::Sunk => 2,
        }
    }
}

impl MapTile {
    /// The untouched tile at `handle` on a grid of tiles `tile_size` steps
    /// wide: at the surface, `handle` times `tile_size` away from the
    /// origin, with full constitution, not sinking.
    pub open spec fn fresh(handle: MapTileHandle, tile_size: u64) -> MapTile
        recommends
            i64::MIN <= handle.x * tile_size <= i64::MAX,
            i64::MIN <= handle.z * tile_size <= i64::MAX,
    {
        MapTile {
            position: WorldPoint {
                x: (handle.x * tile_size) as i64,
                y: 0,
                z: (handle.z * tile_size) as i64,
            },
            constitution: FULL_CONSTITUTION,
            sinking: TileSinking::NotSinking,
        }
    }

    /// The tile after erosion at `rate` millionths of a full constitution
    /// per second has worked on it for `dt` nanoseconds: its constitution
    /// is lower by `rate * dt` grains.
    pub open spec fn eroded(self, rate: u32, dt: u64) -> MapTile {
        MapTile {
            constitution: held_above_floor(self.constitution - rate * dt) as i64,
            ..self
        }
    }

    /// The tile once critical constitution has been acted on: a tile that
    /// is not sinking and whose constitution is below zero starts to sink.
    pub open spec fn promoted(self) -> MapTile {
        if self.sinking == TileSinking::NotSinking && self.constitution < 0 {
            MapTile { sinking: TileSinking::Sinking, ..self }
        } else {
            self
        }
    }

    /// The height of a tile at height `y` after sinking for `dt`
    /// nanoseconds: one step lower per nanosecond.
    pub open spec fn lowered(y: i64, dt: u64) -> i64 {
        held_above_floor(y - dt) as i64
    }

    /// The tile after sinking for `dt` nanoseconds. Only a sinking tile
    /// changes: it falls by one step per nanosecond, and is sunk once that
    /// has taken it lower than `SINK_DEPTH`.
    pub open spec fn sunk_by(self, dt: u64) -> MapTile {
        if self.sinking == TileSinking::Sinking {
            MapTile {
                position: WorldPoint {
                    y: Self::lowered(self.position.y, dt),
                    ..self.position
                },
                sinking: if Self::lowered(self.position.y, dt) < SINK_DEPTH {
                    TileSinking::Sunk
                } else {
                    TileSinking::Sinking
                },
                ..self
            }
        } else {
            self
        }
    }

    /// The tile after `op`.
    pub open spec fn after(self, op: TileOp) -> MapTile {
        match op {
            TileOp::Erode { rate, dt } => self.eroded(rate, dt),
            TileOp::Promote => self.promoted(),
            TileOp::Sink { dt } => self.sunk_by(dt),
        }
    }

    /// The tile after each of `ops` in turn.
    pub open spec fn after_all(self, ops: Seq<TileOp>) -> MapTile
        decreases ops.len(),
    {
        if ops.len() == 0 {
            self
        } else {
            self.after(ops[0]).after_all(ops.drop_first())
        }
    }

    /// The tile after one tick of play of `dt` nanoseconds: it is eroded
    /// if erosion picked it in this tick, which `hit` says, then starts to
    /// sink if its constitution is critical, then sinks if it is sinking.
    pub open spec fn ticked(self, hit: bool, rate: u32, dt: u64) -> MapTile {
        (if hit {
            self.eroded(rate, dt)
        } else {
            self
        }).promoted().sunk_by(dt)
    }

    /// The tile after one tick of play for each entry of `hits`, in turn.
    pub open spec fn ticked_through(self, hits: Seq<bool>, rate: u32, dt: u64) -> MapTile
        decreases hits.len(),
    {
        if hits.len() == 0 {
            self
        } else {
            self.ticked(hits[0], rate, dt).ticked_through(hits.drop_first(), rate, dt)
        }
    }

    /// Makes the untouched tile at `handle`.
    pub fn new(handle: MapTileHandle, tile_size: u64) -> (tile: MapTile)
        requires
            i64::MIN <= handle.x * tile_size <= i64::MAX,
            i64::MIN <= handle.z * tile_size <= i64::MAX,
        ensures
            tile == MapTile::fresh(handle, tile_size),
    {
        let x: i128 = (handle.x as i128) * (tile_size as i128);
        let z: i128 = (handle.z as i128) * (tile_size as i128);
        MapTile {
            position: WorldPoint { x: x as i64, y: 0, z: z as i64 },
            constitution: FULL_CONSTITUTION,
            sinking: TileSinking::NotSinking,
        }
    }

    /// Lets erosion at `rate` millionths of a full constitution per second
    /// work on the tile for `dt` nanoseconds.
    pub fn erode(self, rate: u32, dt: u64) -> (tile: MapTile)
        ensures
            tile == self.eroded(rate, dt),
    {
        assert(0 <= rate * dt <= 0xffff_ffff * 0xffff_ffff_ffff_ffff) by (nonlinear_arith)
            requires
                0 <= rate <= 0xffff_ffff,
                0 <= dt <= 0xffff_ffff_ffff_ffff,
        ;
        let loss: i128 = (rate as i128) * (dt as i128);
        let left: i128 = self.constitution as i128 - loss;
        let constitution: i64 = if left < i64::MIN as i128 {
            i64::MIN
        } else {
            left as i64
        };
        MapTile { constitution, ..self }
    }

    /// Starts the tile sinking if its constitution is below zero.
    pub fn promote(self) -> (tile: MapTile)
        ensures
            tile == self.promoted(),
    {
        if self.sinking == TileSinking::NotSinking && self.constitution < 0 {
            MapTile { sinking: TileSinking::Sinking, ..self }
        } else {
            self
        }
    }

    /// Does `op` to the tile.
    pub fn apply(self, op: TileOp) -> (tile: MapTile)
        ensures
            tile == self.after(op),
    {
        match op {
            TileOp::Erode { rate, dt } => self.erode(rate, dt),
            TileOp::Promote => self.promote(),
            TileOp::Sink { dt } => self.sink(dt),
        }
    }

    /// Lets a sinking tile sink for `dt` nanoseconds.
    pub fn sink(self, dt: u64) -> (tile: MapTile)
        ensures
            tile == self.sunk_by(dt),
    {
        if self.sinking == TileSinking::Sinking {
            let lowered: i128 = self.position.y as i128 - dt as i128;
            let y: i64 = if lowered < i64::MIN as i128 {
                i64::MIN
            } else {
                lowered as i64
            };
            let sinking = if y < SINK_DEPTH {
                TileSinking::Sunk
            } else {
                TileSinking::Sinking
            };
            MapTile { position: WorldPoint { y, ..self.position }, sinking, ..self }
        } else {
            self
        }
    }
}

/// A tile only moves forward through not sinking, sinking and sunk:
/// whatever play does to it, and however often, it never gets back to an
/// earlier state.
pub proof fn lemma_sinking_never_reverts(tile: MapTile, ops: Seq<TileOp>)
    ensures
        tile.after_all(ops).sinking.rank() >= tile.sinking.rank(),
    decreases ops.len(),
{
    if ops.len() > 0 {
        lemma_sinking_never_reverts(tile.after(ops[0]), ops.drop_first());
    }
}

/// A sunk tile stays sunk.
pub proof fn lemma_sunk_is_final(tile: MapTile, ops: Seq<TileOp>)
    requires
        tile.sinking == TileSinking::Sunk,
    ensures
        tile.after_all(ops).sinking == TileSinking::Sunk,
{
    lemma_sinking_never_reverts(tile, ops);
}

/// A tile moves on only for a reason: it starts to sink only with a
/// constitution below zero, and is sunk only when it was sinking and the
/// step has taken it lower than the sink depth. No step skips a state.
pub proof fn lemma_sinking_has_cause(tile: MapTile, op: TileOp)
    ensures
        tile.after(op).sinking.rank() <= tile.sinking.rank() + 1,
        tile.sinking == TileSinking::NotSinking && tile.after(op).sinking != TileSinking::NotSinking
            ==> op == TileOp::Promote && tile.constitution < 0,
        tile.sinking == TileSinking::Sinking && tile.after(op).sinking == TileSinking::Sunk ==> op
            is Sink && tile.after(op).position.y < SINK_DEPTH,
        tile.sinking == TileSinking::Sinking && op is Sink && tile.after(op).position.y
            < SINK_DEPTH ==> tile.after(op).sinking == TileSinking::Sunk,
{
}

/// Acting on critical constitution twice is the same as acting on it
/// once.
pub proof fn lemma_promote_is_idempotent(tile: MapTile)
    ensures
        tile.promoted().promoted() == tile.promoted(),
{
}

/// Erosion never raises a tile's constitution, and sinking never raises a
/// tile.
pub proof fn lemma_tiles_only_wear_down(tile: MapTile, op: TileOp)
    ensures
        tile.after(op).constitution <= tile.constitution,
        tile.after(op).position.y <= tile.position.y,
        tile.after(op).position.x == tile.position.x,
        tile.after(op).position.z == tile.position.z,
{
    if let TileOp::Erode { rate, dt } = op {
        assert(0 <= rate * dt) by (nonlinear_arith)
            requires
                0 <= rate,
                0 <= dt,
        ;
    }
}

/// The number of ticks in which erosion picked the tile.
pub open spec fn count_hits(hits: Seq<bool>) -> nat
    decreases hits.len(),
{
    if hits.len() == 0 {
        0
    } else if hits[0] {
        1 + count_hits(hits.drop_first())
    } else {
        count_hits(hits.drop_first())
    }
}

/// Through any run of ticks a tile never gets back to an earlier state and
/// never rises.
pub proof fn lemma_ticks_never_revert(tile: MapTile, hits: Seq<bool>, rate: u32, dt: u64)
    ensures
        tile.ticked_through(hits, rate, dt).sinking.rank() >= tile.sinking.rank(),
        tile.ticked_through(hits, rate, dt).position.y <= tile.position.y,
    decreases hits.len(),
{
    if hits.len() > 0 {
        lemma_ticks_never_revert(tile.ticked(hits[0], rate, dt), hits.drop_first(), rate, dt);
    }
}

/// A run of ticks can be played in two parts.
pub proof fn lemma_ticks_compose(
    tile: MapTile,
    first: Seq<bool>,
    then: Seq<bool>,
    rate: u32,
    dt: u64,
)
    ensures
        tile.ticked_through(first + then, rate, dt) == tile.ticked_through(
            first,
            rate,
            dt,
        ).ticked_through(then, rate, dt),
    decreases first.len(),
{
    if first.len() == 0 {
        assert(first + then =~= then);
    } else {
        assert((first + then).drop_first() =~= first.drop_first() + then);
        lemma_ticks_compose(tile.ticked(first[0], rate, dt), first.drop_first(), then, rate, dt);
    }
}

/// A tile that erosion picks often enough starts to sink: once the hits
/// have taken more than its constitution, it is no longer afloat.
pub proof fn lemma_hits_wear_through(tile: MapTile, hits: Seq<bool>, rate: u32, dt: u64)
    requires
        hits.len() > 0,
        tile.constitution < count_hits(hits) * (rate * dt),
    ensures
        tile.ticked_through(hits, rate, dt).sinking != TileSinking::NotSinking,
    decreases hits.len(),
{
    let loss = rate * dt;
    let next = tile.ticked(hits[0], rate, dt);
    let rest = hits.drop_first();
    if next.sinking != TileSinking::NotSinking {
        lemma_ticks_never_revert(next, rest, rate, dt);
    } else {
        assert(count_hits(hits) * loss == count_hits(rest) * loss + if hits[0] {
            loss
        } else {
            0
        }) by (nonlinear_arith)
            requires
                count_hits(hits) == count_hits(rest) + if hits[0] {
                    1nat
                } else {
                    0nat
                },
        ;
        assert(0 <= next.constitution < count_hits(rest) * loss);
        assert(rest.len() > 0) by {
            if rest.len() == 0 {
                assert(count_hits(rest) * loss == 0) by (nonlinear_arith)
                    requires
                        count_hits(rest) == 0,
                ;
            }
        }
        lemma_hits_wear_through(next, rest, rate, dt);
    }
}

/// A tile that is sinking is sunk once the ticks have taken it lower than
/// the sink depth.
pub proof fn lemma_sinking_goes_under(tile: MapTile, hits: Seq<bool>, rate: u32, dt: u64)
    requires
        tile.sinking != TileSinking::NotSinking,
        hits.len() > 0,
        tile.position.y - hits.len() * dt < SINK_DEPTH,
    ensures
        tile.ticked_through(hits, rate, dt).sinking == TileSinking::Sunk,
    decreases hits.len(),
{
    let next = tile.ticked(hits[0], rate, dt);
    let rest = hits.drop_first();
    if next.sinking == TileSinking::Sunk {
        lemma_ticks_never_revert(next, rest, rate, dt);
    } else {
        assert(hits.len() * dt == rest.len() * dt + dt) by (nonlinear_arith)
            requires
                hits.len() == rest.len() + 1,
        ;
        assert(next.position.y == tile.position.y - dt);
        assert(rest.len() > 0) by {
            if rest.len() == 0 {
                assert(rest.len() * dt == 0) by (nonlinear_arith)
                    requires
                        rest.len() == 0,
                ;
            }
        }
        lemma_sinking_goes_under(next, rest, rate, dt);
    }
}

/// A tile that erosion has picked often enough early enough has sunk at the
/// end of the run: if the hits within the first `within` ticks take more
/// than its constitution, and the ticks after those take it lower than the
/// sink depth, the last tick leaves it sunk.
pub proof fn lemma_worn_tile_goes_under(
    tile: MapTile,
    hits: Seq<bool>,
    within: int,
    rate: u32,
    dt: u64,
)
    requires
        0 < within < hits.len(),
        tile.constitution < count_hits(hits.take(within)) * (rate * dt),
        tile.position.y - (hits.len() - within) * dt < SINK_DEPTH,
    ensures
        tile.ticked_through(hits, rate, dt).sinking == TileSinking::Sunk,
{
    let early = hits.take(within);
    let late = hits.skip(within);
    assert(hits =~= early + late);
    lemma_ticks_compose(tile, early, late, rate, dt);
    lemma_hits_wear_through(tile, early, rate, dt);
    lemma_ticks_never_revert(tile, early, rate, dt);
    let worn = tile.ticked_through(early, rate, dt);
    assert(0 <= late.len() * dt) by (nonlinear_arith)
        requires
            0 <= late.len(),
            0 <= dt,
    ;
    lemma_sinking_goes_under(worn, late, rate, dt);
}

} // verus!
