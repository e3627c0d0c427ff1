//! What a player is doing, and whether it stands on the ground.

use vstd::prelude::*;

verus! {

/// How strongly a released attack hits: the fraction `num / den`, kept
/// exact and not reduced. A `den` of zero stands for a division that has no
/// value.
#[derive(Clone, Copy, Debug, PartialEq, Eq, Structural)]
pub struct Strength {
    pub num: i128,
    pub den: i128,
}

impl Strength {
    /// The fraction is 0.
    pub open spec fn is_zero(self) -> bool {
        self.num == 0 && self.den != 0
    }

    /// The fraction is 1.
    pub open spec fn is_full(self) -> bool {
        self.num == self.den && self.den != 0
    }

    /// No strength at all, as `0 / 1`.
    pub fn zero() -> (s: Strength)
        ensures
            s == (Strength { num: 0, den: 1 }),
            s.is_zero(),
    {
        Strength { num: 0, den: 1 }
    }

    /// Full strength, as `1 / 1`.
    pub fn full() -> (s: Strength)
        ensures
            s == (Strength { num: 1, den: 1 }),
            s.is_full(),
    {
        Strength { num: 1, den: 1 }
    }
}

/// The action a player is in. Every time is the time spent in the state so
/// far, in nanoseconds; entering a state starts it at zero.
#[derive(Clone, Copy, Debug, PartialEq, Eq, Structural)]
pub enum PlayerActionState {
    Idle,
    /// Charging an attack.
    PrepareAttack(u64),
    /// Attacking, with the strength the charge gave.
    Attack(u64, Strength),
    Shield(u64),
}

/// Whether the player touches the ground.
#[derive(Clone, Copy, Debug, PartialEq, Eq, Structural)]
pub enum Grounded {
    Grounded,
    Airborne,
}

} // verus!
