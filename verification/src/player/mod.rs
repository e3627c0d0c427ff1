//! The player: action states, movement, grounding and collisions.

pub mod action;
pub mod collision;
pub mod grounding;
pub mod movement;
pub mod state;
pub mod values;

pub use action::{ActionEffect, ActionInput};
pub use collision::{CollisionError, CollisionResponse};
pub use movement::{MoveCommand, MoveInput};
pub use state::{Grounded, PlayerActionState, Strength};
pub use values::PlayerActionValues;
