//! Rules of a small island game: tiles that erode and sink at the shore,
//! and players that move, charge attacks, shield and bump into each other.
//!
//! The crate holds no floating point. Lengths and heights are whole
//! numbers of steps, [`units::UNIT`] steps to one world unit; times are
//! whole nanoseconds; a tile's constitution is a whole number of grains,
//! [`map::tile::FULL_CONSTITUTION`] grains to 1.0.

pub mod map;
pub mod player;
pub mod units;
