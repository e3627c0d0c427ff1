//! Telling from a probe below the player whether it stands on the ground.

use crate::player::state::Grounded;
use vstd::prelude::*;

verus! {

/// A player is on the ground when the nearest thing below it is closer than
/// this, in steps: 0.55 world units.
pub const GROUNDING_THRESHOLD: u64 = 550_000_000;

impl Grounded {
    /// Classifies a player from the ray cast straight down from it: `hit`
    /// is the distance to the nearest thing below, in steps, or `None` when
    /// the ray hit nothing.
    pub fn classify(hit: Option<u64>) -> (g: Grounded)
        ensures
            g == Grounded::Grounded <==> (hit matches Some(distance) && distance
                < GROUNDING_THRESHOLD),
            g == Grounded::Airborne <==> (hit is None || hit->Some_0 >= GROUNDING_THRESHOLD),
    {
        match hit {
            Some(distance) => {
                if distance < GROUNDING_THRESHOLD {
                    Grounded::Grounded
                } else {
                    Grounded::Airborne
                }
            },
            None => Grounded::Airborne,
        }
    }
}

/// Whether a player at height `y`, in steps, has fallen to the water: the
/// game is over at or below height zero.
pub fn is_game_over(y: i64) -> (over: bool)
    ensures
        over == (y <= 0),
{
    y <= 0
}

} // verus!
