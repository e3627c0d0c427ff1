//! The tunable timings of the action states.

use crate::player::state::{PlayerActionState, Strength};
use vstd::prelude::*;

verus! {

/// Timings that govern charging and shielding, in nanoseconds. They stay
/// the same for a whole session.
#[derive(Clone, Copy, Debug, PartialEq, Eq, Structural)]
pub struct PlayerActionValues {
    /// A shield stays up at least this long, even when the key is let go.
    pub min_shield_duration: u64,
    pub max_shield_duration: u64,
    pub parry_duration: u64,
    /// A charge shorter than this gives an attack no strength.
    pub min_prepare_duration: u64,
    /// A charge cannot last longer than this; beyond it the attack has full
    /// strength.
    pub max_prepare_duration: u64,
}

impl Default for PlayerActionValues {
    fn default() -> (v: PlayerActionValues)
        ensures
            v == (PlayerActionValues {
                min_shield_duration: 400_000_000,
                max_shield_duration: 2_000_000_000,
                parry_duration: 400_000_000,
                min_prepare_duration: 400_000_000,
                max_prepare_duration: 3_000_000_000,
            }),
    {
        PlayerActionValues {
            min_shield_duration: 400_000_000,
            max_shield_duration: 2_000_000_000,
            parry_duration: 400_000_000,
            min_prepare_duration: 400_000_000,
            max_prepare_duration: 3_000_000_000,
        }
    }
}

impl PlayerActionValues {
    /// The strength of an attack released after charging for `elapsed`
    /// nanoseconds.
    ///
    /// Below `min_prepare_duration` it is 0 and above `max_prepare_duration`
    /// it is 1. In between it grows with the time charged beyond
    /// `min_prepare_duration`, measured against the span from
    /// `min_shield_duration` (not `min_prepare_duration`) to
    /// `max_prepare_duration`. With a shield minimum above the prepare
    /// minimum the strength can therefore pass 1 before the charge ends,
    /// and with one above the prepare maximum it is negative.
    pub open spec fn strength_after(&self, elapsed: int) -> Strength {
        if elapsed < self.min_prepare_duration {
            Strength { num: 0, den: 1 }
        } else if elapsed > self.max_prepare_duration {
            Strength { num: 1, den: 1 }
        } else {
            Strength {
                num: (elapsed - self.min_prepare_duration) as i128,
                den: (self.max_prepare_duration - self.min_shield_duration) as i128,
            }
        }
    }

    /// The strength of an attack released after charging for `dur`
    /// nanoseconds.
    pub fn attack_strength(&self, dur: u64) -> (s: Strength)
        ensures
            s == self.strength_after(dur as int),
            dur < self.min_prepare_duration ==> s.is_zero(),
            self.min_prepare_duration <= dur && dur > self.max_prepare_duration ==> s.is_full(),
            self.min_prepare_duration <= dur <= self.max_prepare_duration ==> s.num == dur
                - self.min_prepare_duration && s.den == self.max_prepare_duration
                - self.min_shield_duration,
    {
        if dur < self.min_prepare_duration {
            return Strength::zero();
        }
        if dur > self.max_prepare_duration {
            return Strength::full();
        }
        Strength {
            num: (dur - self.min_prepare_duration) as i128,
            den: self.max_prepare_duration as i128 - self.min_shield_duration as i128,
        }
    }

    /// How hard a player in `state` pushes when it moves.
    pub open spec fn multiplier_of(state: PlayerActionState) -> u32 {
        match state {
            PlayerActionState::Idle => 24,
            PlayerActionState::PrepareAttack(_) => 12,
            PlayerActionState::Attack(_, _) => 32,
            PlayerActionState::Shield(_) => 12,
        }
    }

    /// How hard a player in `state` pushes when it moves.
    pub fn move_multipier(&self, state: &PlayerActionState) -> (m: u32)
        ensures
            m == Self::multiplier_of(*state),
    {
        match state {
            PlayerActionState::Idle => 24,
            PlayerActionState::PrepareAttack(_) => 12,
            PlayerActionState::Attack(_, _) => 32,
            PlayerActionState::Shield(_) => 12,
        }
    }
}

} // verus!
