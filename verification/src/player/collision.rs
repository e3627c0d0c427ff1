//! What happens when two players run into each other.

use crate::player::state::PlayerActionState;
use crate::units::{scaled_offset, Impulse, WorldPoint};
use vstd::prelude::*;

verus! {

/// How two colliding players are pushed apart.
#[derive(Clone, Copy, Debug, PartialEq, Eq, Structural)]
pub enum CollisionResponse {
    /// Each player is pushed away from the other, by its factor times the
    /// way from the other player to itself.
    Push { first: u32, second: u32 },
    /// One player shields while the other attacks. Parrying is not part of
    /// the rules yet, so nobody is pushed.
    ParryUnsupported,
}

/// Why a collision gave no impulses.
#[derive(Clone, Copy, Debug, PartialEq, Eq, Structural)]
pub enum CollisionError {
    /// A shield met an attack, which the rules do not cover yet.
    ParryUnsupported,
}

/// The push factors for each pairing of action states.
///
/// Two attackers are not treated alike: the first is pushed by 2, the
/// second by 24. Every pairing that is not listed pushes nobody.
pub open spec fn collision_response(
    first: PlayerActionState,
    second: PlayerActionState,
) -> CollisionResponse {
    match (first, second) {
        (PlayerActionState::Idle, PlayerActionState::Idle) => CollisionResponse::Push {
            first: 12,
            second: 12,
        },
        (PlayerActionState::Idle, PlayerActionState::Attack(_, _)) => CollisionResponse::Push {
            first: 24,
            second: 3,
        },
        (PlayerActionState::Attack(_, _), PlayerActionState::Idle) => CollisionResponse::Push {
            first: 3,
            second: 24,
        },
        (PlayerActionState::Attack(_, _), PlayerActionState::Attack(_, _)) => {
            CollisionResponse::Push { first: 2, second: 24 }
        },
        (PlayerActionState::Shield(_), PlayerActionState::Attack(_, _)) => {
            CollisionResponse::ParryUnsupported
        },
        (PlayerActionState::Attack(_, _), PlayerActionState::Shield(_)) => {
            CollisionResponse::ParryUnsupported
        },
        _ => CollisionResponse::Push { first: 0, second: 0 },
    }
}

/// Decides how a collision between two players pushes them.
pub fn resolve_collision(first: PlayerActionState, second: PlayerActionState) -> (r:
    CollisionResponse)
    ensures
        r == collision_response(first, second),
        first is Idle && second is Idle ==> r == (CollisionResponse::Push {
            first: 12,
            second: 12,
        }),
        first is Attack && second is Attack ==> r == (CollisionResponse::Push {
            first: 2,
            second: 24,
        }),
{
    match first {
        PlayerActionState::Idle => match second {
            PlayerActionState::Idle => CollisionResponse::Push { first: 12, second: 12 },
            PlayerActionState::Attack(_, _) => CollisionResponse::Push { first: 24, second: 3 },
            _ => CollisionResponse::Push { first: 0, second: 0 },
        },
        PlayerActionState::Attack(_, _) => match second {
            PlayerActionState::Idle => CollisionResponse::Push { first: 3, second: 24 },
            PlayerActionState::Attack(_, _) => CollisionResponse::Push { first: 2, second: 24 },
            PlayerActionState::Shield(_) => CollisionResponse::ParryUnsupported,
            PlayerActionState::PrepareAttack(_) => CollisionResponse::Push { first: 0, second: 0 },
        },
        PlayerActionState::Shield(_) => match second {
            PlayerActionState::Attack(_, _) => CollisionResponse::ParryUnsupported,
            _ => CollisionResponse::Push { first: 0, second: 0 },
        },
        PlayerActionState::PrepareAttack(_) => CollisionResponse::Push { first: 0, second: 0 },
    }
}

/// The impulses that a collision gives to two players standing at
/// `first_at` and `second_at`: each player's push factor times the way from
/// the other player to itself.
pub fn collision_impulses(
    first: PlayerActionState,
    first_at: WorldPoint,
    second: PlayerActionState,
    second_at: WorldPoint,
) -> (r: Result<(Impulse, Impulse), CollisionError>)
    ensures
        match collision_response(first, second) {
            CollisionResponse::Push { first: f, second: s } => {
                &&& r is Ok
                &&& r->Ok_0.0.pushes(f as int, first_at, second_at)
                &&& r->Ok_0.1.pushes(s as int, second_at, first_at)
            },
            CollisionResponse::ParryUnsupported => {
                &&& r is Err
                &&& r->Err_0 == CollisionError::ParryUnsupported
            },
        },
        first is Idle && second is Idle ==> r is Ok && r->Ok_0.0.pushes(12, first_at, second_at)
            && r->Ok_0.1.pushes(12, second_at, first_at),
        first is Attack && second is Attack ==> r is Ok && r->Ok_0.0.pushes(
            2,
            first_at,
            second_at,
        ) && r->Ok_0.1.pushes(24, second_at, first_at),
        (first is Shield && second is Attack) || (first is Attack && second is Shield) <==> r
            is Err,
{
    match resolve_collision(first, second) {
        CollisionResponse::Push { first: f, second: s } => Ok(
            (scaled_offset(f, first_at, second_at), scaled_offset(s, second_at, first_at)),
        ),
        CollisionResponse::ParryUnsupported => Err(CollisionError::ParryUnsupported),
    }
}

} // verus!
