//! How a player's action state moves from one tick to the next.

use crate::player::state::{Grounded, PlayerActionState, Strength};
use crate::player::values::PlayerActionValues;
use vstd::prelude::*;

verus! {

/// How long an attack lasts, in nanoseconds.
pub const ATTACK_DURATION: u64 = 400_000_000;

/// The impulse of an attack at full strength, in world units.
pub const ATTACK_IMPULSE: u32 = 30;

/// The attack and shield keys during one tick.
#[derive(Clone, Copy, Debug, PartialEq, Eq, Structural)]
pub struct ActionInput {
    /// The attack key went down in this tick.
    pub attack_pressed: bool,
    /// The attack key is down.
    pub attack_held: bool,
    /// The shield key went down in this tick.
    pub shield_pressed: bool,
    /// The shield key is down.
    pub shield_held: bool,
}

/// What a tick asks of the physics engine besides the new state.
#[derive(Clone, Copy, Debug, PartialEq, Eq, Structural)]
pub enum ActionEffect {
    Nothing,
    /// Add an impulse along the player's current force, of
    /// `ATTACK_IMPULSE` times the given strength.
    AttackImpulse(Strength),
}

/// `elapsed + dt`, held at the largest time a state can carry.
pub open spec fn time_after(elapsed: u64, dt: u64) -> u64 {
    if elapsed + dt <= u64::MAX {
        (elapsed + dt) as u64
    } else {
        u64::MAX
    }
}

impl PlayerActionState {
    /// The time spent in the state so far; an idle player counts none.
    pub open spec fn elapsed(self) -> u64 {
        match self {
            PlayerActionState::Idle => 0,
            PlayerActionState::PrepareAttack(d) => d,
            PlayerActionState::Attack(d, _) => d,
            PlayerActionState::Shield(d) => d,
        }
    }

    /// The state after a tick of `dt` nanoseconds.
    ///
    /// In the air nothing changes. On the ground:
    /// - an idle player starts to shield when the shield key went down,
    ///   else starts to charge when the attack key went down;
    /// - a charge goes on while the attack key is down and the charge
    ///   stays under `max_prepare_duration`, and else turns into an attack
    ///   with the strength of the whole charge;
    /// - an attack goes on until it has lasted longer than
    ///   `ATTACK_DURATION`, then the player is idle;
    /// - a shield goes on while the shield key is down or it has lasted
    ///   less than `min_shield_duration`, then the player is idle.
    pub open spec fn next(
        self,
        grounded: Grounded,
        input: ActionInput,
        dt: u64,
        values: PlayerActionValues,
    ) -> PlayerActionState {
        match (grounded, self) {
            (Grounded::Airborne, _) => self,
            (Grounded::Grounded, PlayerActionState::Idle) => {
                if input.shield_pressed {
                    PlayerActionState::Shield(0)
                } else if input.attack_pressed {
                    PlayerActionState::PrepareAttack(0)
                } else {
                    PlayerActionState::Idle
                }
            },
            (Grounded::Grounded, PlayerActionState::PrepareAttack(d)) => {
                if input.attack_held && d + dt < values.max_prepare_duration {
                    PlayerActionState::PrepareAttack((d + dt) as u64)
                } else {
                    PlayerActionState::Attack(0, values.strength_after(d + dt))
                }
            },
            (Grounded::Grounded, PlayerActionState::Attack(d, strength)) => {
                if d + dt > ATTACK_DURATION {
                    PlayerActionState::Idle
                } else {
                    PlayerActionState::Attack((d + dt) as u64, strength)
                }
            },
            (Grounded::Grounded, PlayerActionState::Shield(d)) => {
                if input.shield_held || d + dt < values.min_shield_duration {
                    PlayerActionState::Shield(time_after(d, dt))
                } else {
                    PlayerActionState::Idle
                }
            },
        }
    }

    /// What the tick asks of the physics engine: an attack impulse in the
    /// tick in which a charge turns into an attack, nothing in any other.
    pub open spec fn effect(
        self,
        grounded: Grounded,
        input: ActionInput,
        dt: u64,
        values: PlayerActionValues,
    ) -> ActionEffect {
        match (self, self.next(grounded, input, dt, values)) {
            (PlayerActionState::PrepareAttack(_), PlayerActionState::Attack(_, strength)) => {
                ActionEffect::AttackImpulse(strength)
            },
            _ => ActionEffect::Nothing,
        }
    }

    /// Moves the state through one tick of `dt` nanoseconds and says what
    /// the tick asks of the physics engine.
    pub fn advance(
        self,
        grounded: Grounded,
        input: ActionInput,
        dt: u64,
        values: &PlayerActionValues,
    ) -> (r: (PlayerActionState, ActionEffect))
        ensures
            r.0 == self.next(grounded, input, dt, *values),
            r.1 == self.effect(grounded, input, dt, *values),
    {
        match grounded {
            Grounded::Airborne => (self, ActionEffect::Nothing),
            Grounded::Grounded => match self {
                PlayerActionState::Idle => {
                    if input.shield_pressed {
                        (PlayerActionState::Shield(0), ActionEffect::Nothing)
                    } else if input.attack_pressed {
                        (PlayerActionState::PrepareAttack(0), ActionEffect::Nothing)
                    } else {
                        (PlayerActionState::Idle, ActionEffect::Nothing)
                    }
                },
                PlayerActionState::PrepareAttack(d) => {
                    let total: u128 = d as u128 + dt as u128;
                    if input.attack_held && total < values.max_prepare_duration as u128 {
                        (PlayerActionState::PrepareAttack(total as u64), ActionEffect::Nothing)
                    } else {
                        let strength = if total > u64::MAX as u128 {
                            Strength::full()
                        } else {
                            values.attack_strength(total as u64)
                        };
                        (
                            PlayerActionState::Attack(0, strength),
                            ActionEffect::AttackImpulse(strength),
                        )
                    }
                },
                PlayerActionState::Attack(d, strength) => {
                    let total: u128 = d as u128 + dt as u128;
                    if total > ATTACK_DURATION as u128 {
                        (PlayerActionState::Idle, ActionEffect::Nothing)
                    } else {
                        (PlayerActionState::Attack(total as u64, strength), ActionEffect::Nothing)
                    }
                },
                PlayerActionState::Shield(d) => {
                    let total: u128 = d as u128 + dt as u128;
                    if input.shield_held || total < values.min_shield_duration as u128 {
                        let kept: u64 = if total > u64::MAX as u128 {
                            u64::MAX
                        } else {
                            total as u64
                        };
                        (PlayerActionState::Shield(kept), ActionEffect::Nothing)
                    } else {
                        (PlayerActionState::Idle, ActionEffect::Nothing)
                    }
                },
            },
        }
    }
}

/// Whether two states are the same action, whatever their times.
pub open spec fn same_action(a: PlayerActionState, b: PlayerActionState) -> bool {
    match (a, b) {
        (PlayerActionState::Idle, PlayerActionState::Idle) => true,
        (PlayerActionState::PrepareAttack(_), PlayerActionState::PrepareAttack(_)) => true,
        (PlayerActionState::Attack(_, _), PlayerActionState::Attack(_, _)) => true,
        (PlayerActionState::Shield(_), PlayerActionState::Shield(_)) => true,
        _ => false,
    }
}

/// An idle player on the ground starts to charge when the attack key goes
/// down and the shield key does not.
pub proof fn lemma_idle_starts_charge(input: ActionInput, dt: u64, values: PlayerActionValues)
    requires
        input.attack_pressed,
        !input.shield_pressed,
    ensures
        PlayerActionState::Idle.next(Grounded::Grounded, input, dt, values)
            == PlayerActionState::PrepareAttack(0),
{
}

/// A charge that reaches `max_prepare_duration` turns into an attack of
/// full strength, whether or not the key is still down.
///
/// This holds of every charge that has lasted at least the charging
/// minimum, with one exception: a charge that ends exactly at the maximum
/// is measured against the span from the shield minimum, and so is at full
/// strength only where charging and shielding have the same minimum and
/// that lies below the maximum.
pub proof fn lemma_full_charge_hits_fully(
    charged: u64,
    input: ActionInput,
    dt: u64,
    values: PlayerActionValues,
)
    requires
        charged + dt >= values.max_prepare_duration,
        charged + dt >= values.min_prepare_duration,
        charged + dt == values.max_prepare_duration ==> values.min_prepare_duration
            == values.min_shield_duration && values.min_shield_duration
            < values.max_prepare_duration,
    ensures
        PlayerActionState::PrepareAttack(charged).next(Grounded::Grounded, input, dt, values)
            matches PlayerActionState::Attack(elapsed, strength) && elapsed == 0
            && strength.is_full(),
        PlayerActionState::PrepareAttack(charged).effect(Grounded::Grounded, input, dt, values)
            matches ActionEffect::AttackImpulse(strength) && strength.is_full(),
        charged + dt > values.max_prepare_duration ==> PlayerActionState::PrepareAttack(
            charged,
        ).next(Grounded::Grounded, input, dt, values) == PlayerActionState::Attack(
            0,
            Strength { num: 1, den: 1 },
        ),
{
}

/// Within an action the time only counts up, and a new action starts at
/// zero.
pub proof fn lemma_time_counts_up_or_restarts(
    state: PlayerActionState,
    grounded: Grounded,
    input: ActionInput,
    dt: u64,
    values: PlayerActionValues,
)
    ensures
        same_action(state, state.next(grounded, input, dt, values)) ==> state.next(
            grounded,
            input,
            dt,
            values,
        ).elapsed() >= state.elapsed(),
        !same_action(state, state.next(grounded, input, dt, values)) ==> state.next(
            grounded,
            input,
            dt,
            values,
        ).elapsed() == 0,
{
}

/// In the air the action state stands still and asks for nothing.
pub proof fn lemma_airborne_holds_state(
    state: PlayerActionState,
    input: ActionInput,
    dt: u64,
    values: PlayerActionValues,
)
    ensures
        state.next(Grounded::Airborne, input, dt, values) == state,
        state.effect(Grounded::Airborne, input, dt, values) == ActionEffect::Nothing,
{
}

} // verus!
