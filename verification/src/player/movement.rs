//! Turning held keys into a force, and a pressed jump key into an impulse.

use crate::player::state::{Grounded, PlayerActionState};
use crate::player::values::PlayerActionValues;
use vstd::prelude::*;

verus! {

/// The upward impulse of a jump, in world units.
pub const JUMP_IMPULSE: u32 = 8;

/// The movement keys during one tick.
#[derive(Clone, Copy, Debug, PartialEq, Eq, Structural)]
pub struct MoveInput {
    /// The key is down. Forward is towards negative z.
    pub forward: bool,
    pub backward: bool,
    /// Towards negative x.
    pub left: bool,
    /// Towards positive x.
    pub right: bool,
    /// The jump key went down in this tick.
    pub jump_pressed: bool,
}

/// What a tick of movement asks of the physics engine.
///
/// The steady force on the player is `force` world units strong and points
/// along `(heading_x, 0, heading_z)`. The heading is not of unit length: on a
/// diagonal both parts are 1 or -1.
#[derive(Clone, Copy, Debug, PartialEq, Eq, Structural)]
pub struct MoveCommand {
    pub heading_x: i8,
    pub heading_z: i8,
    /// The strength of the steady force; 0 where there is no heading.
    pub force: u32,
    /// The upward impulse to add, in world units.
    pub jump: u32,
}

/// 1 for a key that is down, 0 for one that is up.
pub open spec fn held(key: bool) -> int {
    if key {
        1
    } else {
        0
    }
}

impl MoveInput {
    /// The sum of the held directions along x: right counts 1, left -1.
    pub open spec fn heading_x(self) -> int {
        held(self.right) - held(self.left)
    }

    /// The sum of the held directions along z: backward counts 1, forward
    /// -1.
    pub open spec fn heading_z(self) -> int {
        held(self.backward) - held(self.forward)
    }

    /// No key is down, or the keys that are down cancel each other.
    pub open spec fn is_still(self) -> bool {
        self.heading_x() == 0 && self.heading_z() == 0
    }
}

/// What one tick of movement asks for.
///
/// On the ground the player is pushed along the held directions with the
/// multiplier of its action state, and a jump key that went down adds the
/// jump impulse. In the air the player cannot steer or jump: the force is
/// cleared and there is no impulse.
pub open spec fn move_command(
    grounded: Grounded,
    state: PlayerActionState,
    input: MoveInput,
) -> MoveCommand {
    match grounded {
        Grounded::Airborne => MoveCommand { heading_x: 0, heading_z: 0, force: 0, jump: 0 },
        Grounded::Grounded => MoveCommand {
            heading_x: input.heading_x() as i8,
            heading_z: input.heading_z() as i8,
            force: if input.is_still() {
                0
            } else {
                PlayerActionValues::multiplier_of(state)
            },
            jump: if input.jump_pressed {
                JUMP_IMPULSE
            } else {
                0
            },
        },
    }
}

/// The fastest a player in `state` may move over the ground, in world units
/// per second.
pub open spec fn speed_limit_of(state: PlayerActionState) -> u32 {
    match state {
        PlayerActionState::Idle => 5,
        PlayerActionState::PrepareAttack(_) => 2,
        PlayerActionState::Attack(_, _) => 20,
        PlayerActionState::Shield(_) => 2,
    }
}

/// The fastest a player in `state` may move over the ground, in world units
/// per second.
pub fn speed_limit(state: &PlayerActionState) -> (limit: u32)
    ensures
        limit == speed_limit_of(*state),
{
    match state {
        PlayerActionState::Idle => 5,
        PlayerActionState::PrepareAttack(_) => 2,
        PlayerActionState::Attack(_, _) => 20,
        PlayerActionState::Shield(_) => 2,
    }
}

/// Works out what one tick of movement asks of the physics engine.
pub fn player_move(
    grounded: Grounded,
    state: &PlayerActionState,
    input: MoveInput,
    values: &PlayerActionValues,
) -> (cmd: MoveCommand)
    ensures
        cmd == move_command(grounded, *state, input),
{
    match grounded {
        Grounded::Airborne => MoveCommand { heading_x: 0, heading_z: 0, force: 0, jump: 0 },
        Grounded::Grounded => {
            let mut x: i8 = 0;
            let mut z: i8 = 0;
            if input.forward {
                z = z - 1;
            }
            if input.backward {
                z = z + 1;
            }
            if input.right {
                x = x + 1;
            }
            if input.left {
                x = x - 1;
            }
            let force: u32 = if x == 0 && z == 0 {
                0
            } else {
                values.move_multipier(state)
            };
            let jump: u32 = if input.jump_pressed {
                JUMP_IMPULSE
            } else {
                0
            };
            MoveCommand { heading_x: x, heading_z: z, force, jump }
        },
    }
}

} // verus!
