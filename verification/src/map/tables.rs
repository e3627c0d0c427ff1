//! The hash tables that hold the island, and the random pick of a tile.
//!
//! The tables are hashbrown's, as bevy hands them out. Nothing in this file
//! is proved: each function states what the table's own documentation and
//! source say of the one call it makes. Keys are plain pairs `(x, z)`, so
//! that equality and hashing of keys are those of the standard library.

use crate::map::tile::MapTile;
use bevy::utils::hashbrown::HashMap;
use bevy::utils::HashSet;
use rand::seq::IteratorRandom;
use vstd::prelude::*;

verus! {

/// A `hashbrown::HashMap` from grid pairs to tiles. The verifier does not
/// look inside: what the table holds goes by the name `tiles_in`.
#[verifier::external_body]
pub struct TileTable {
    inner: HashMap<(i32, i32), MapTile>,
}

/// A `hashbrown::HashSet` of grid pairs. The verifier does not look
/// inside: what the set holds goes by the name `pairs_in`.
#[verifier::external_body]
pub struct PairSet {
    inner: HashSet<(i32, i32)>,
}

/// The tiles that a table holds, by their grid pairs.
pub uninterp spec fn tiles_in(table: TileTable) -> Map<(i32, i32), MapTile>;

/// The grid pairs that a set holds.
pub uninterp spec fn pairs_in(set: PairSet) -> Set<(i32, i32)>;

impl TileTable {
    /// `HashMap::default`: a table that holds nothing.
    #[verifier::external_body]
    pub(crate) fn new() -> (table: TileTable)
        ensures
            forall|key: (i32, i32)| !tiles_in(table).contains_key(key),
    {
        TileTable { inner: HashMap::default() }
    }

    /// `HashMap::len`: the number of tiles held.
    #[verifier::external_body]
    pub(crate) fn len(&self) -> (n: usize)
        ensures
            n == tiles_in(*self).dom().len(),
    {
        self.inner.len()
    }

    /// `HashMap::contains_key`: whether a tile is held under `key`.
    #[verifier::external_body]
    pub(crate) fn contains_key(&self, key: (i32, i32)) -> (held: bool)
        ensures
            held == tiles_in(*self).contains_key(key),
    {
        self.inner.contains_key(&key)
    }

    /// `HashMap::get`: a copy of the tile held under `key`, if there is
    /// one.
    #[verifier::external_body]
    pub(crate) fn get(&self, key: (i32, i32)) -> (tile: Option<MapTile>)
        ensures
            tile == if tiles_in(*self).contains_key(key) {
                Some(tiles_in(*self)[key])
            } else {
                None
            },
    {
        self.inner.get(&key).copied()
    }

    /// `HashMap::insert`: afterwards `tile` is held under `key` and every
    /// other key holds what it held. Returns the tile that `key` held
    /// before, if it held one. The table grows as it must.
    #[verifier::external_body]
    pub(crate) fn insert(&mut self, key: (i32, i32), tile: MapTile) -> (before: Option<MapTile>)
        ensures
            tiles_in(*final(self)) == tiles_in(*old(self)).insert(key, tile),
            before == if tiles_in(*old(self)).contains_key(key) {
                Some(tiles_in(*old(self))[key])
            } else {
                None
            },
    {
        self.inner.insert(key, tile)
    }

    /// `HashMap::keys`, collected: every key of the table once, in an
    /// order that is not fixed.
    #[verifier::external_body]
    pub(crate) fn keys(&self) -> (keys: Vec<(i32, i32)>)
        ensures
            keys@.no_duplicates(),
            forall|key: (i32, i32)| keys@.contains(key) <==> tiles_in(*self).contains_key(key),
    {
        self.inner.keys().copied().collect()
    }
}

impl PairSet {
    /// `HashSet::default`: a set that holds nothing.
    #[verifier::external_body]
    pub(crate) fn new() -> (set: PairSet)
        ensures
            forall|pair: (i32, i32)| !pairs_in(set).contains(pair),
    {
        PairSet { inner: HashSet::default() }
    }

    /// `HashSet::len`: the number of pairs held.
    #[verifier::external_body]
    pub(crate) fn len(&self) -> (n: usize)
        ensures
            n == pairs_in(*self).len(),
    {
        self.inner.len()
    }

    /// `HashSet::contains`: whether `pair` is held.
    #[verifier::external_body]
    pub(crate) fn contains(&self, pair: (i32, i32)) -> (held: bool)
        ensures
            held == pairs_in(*self).contains(pair),
    {
        self.inner.contains(&pair)
    }

    /// `HashSet::insert`: afterwards `pair` is held besides what was held
    /// before. Returns whether `pair` is new to the set.
    #[verifier::external_body]
    pub(crate) fn insert(&mut self, pair: (i32, i32)) -> (fresh: bool)
        ensures
            pairs_in(*final(self)) == pairs_in(*old(self)).insert(pair),
            fresh == !pairs_in(*old(self)).contains(pair),
    {
        self.inner.insert(pair)
    }

    /// `HashSet::iter`, collected: every pair of the set once, in an order
    /// that is not fixed.
    #[verifier::external_body]
    pub(crate) fn items(&self) -> (items: Vec<(i32, i32)>)
        ensures
            items@.no_duplicates(),
            forall|pair: (i32, i32)| items@.contains(pair) <==> pairs_in(*self).contains(pair),
    {
        self.inner.iter().copied().collect()
    }

    /// `IteratorRandom::choose` on `HashSet::iter`, with the thread's
    /// random number generator from `rand::thread_rng`: one of the pairs
    /// held, or `None` if and only if the set holds none. Which pair comes
    /// back is left to chance, and two calls on the same set may differ.
    /// Nothing is claimed of how likely each pair is.
    #[verifier::external_body]
    pub(crate) fn pick(&self) -> (picked: Option<(i32, i32)>)
        ensures
            picked is None <==> (forall|pair: (i32, i32)| !pairs_in(*self).contains(pair)),
            picked matches Some(pair) ==> pairs_in(*self).contains(pair),
    {
        self.inner.iter().choose(&mut rand::thread_rng()).copied()
    }
}

} // verus!
