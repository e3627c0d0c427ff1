//! Fixed-point scales shared by the map and the player rules.

use vstd::prelude::*;

verus! {

/// Steps in one world unit. Something that moves one world unit per second
/// moves one step per nanosecond.
pub const UNIT: i64 = 1_000_000_000;

/// A point of the world, each coordinate in steps.
#[derive(Clone, Copy, Debug, PartialEq, Eq, Structural)]
pub struct WorldPoint {
    pub x: i64,
    pub y: i64,
    pub z: i64,
}

/// An impulse for the physics engine, each component in steps. The
/// components are wide enough for any product of a push factor and a
/// difference of two points.
#[derive(Clone, Copy, Debug, PartialEq, Eq, Structural)]
pub struct Impulse {
    pub x: i128,
    pub y: i128,
    pub z: i128,
}

impl Impulse {
    /// The impulse is `factor` times the way from `origin` to `target`,
    /// coordinate by coordinate.
    pub open spec fn pushes(self, factor: int, target: WorldPoint, origin: WorldPoint) -> bool {
        &&& self.x == factor * (target.x - origin.x)
        &&& self.y == factor * (target.y - origin.y)
        &&& self.z == factor * (target.z - origin.z)
    }
}

proof fn lemma_scaled_fits(factor: u32, a: i64, b: i64)
    ensures
        i128::MIN <= factor * (a - b) <= i128::MAX,
{
    let d: int = a - b;
    assert(-0x1_0000_0000 * 0x1_0000_0000_0000_0000 <= factor * d <= 0x1_0000_0000
        * 0x1_0000_0000_0000_0000) by (nonlinear_arith)
        requires
            0 <= factor <= 0x1_0000_0000,
            -0x1_0000_0000_0000_0000 <= d <= 0x1_0000_0000_0000_0000,
    ;
}

/// `factor` times the way from `origin` to `target`.
pub fn scaled_offset(factor: u32, target: WorldPoint, origin: WorldPoint) -> (imp: Impulse)
    ensures
        imp.pushes(factor as int, target, origin),
{
    proof {
        lemma_scaled_fits(factor, target.x, origin.x);
        lemma_scaled_fits(factor, target.y, origin.y);
        lemma_scaled_fits(factor, target.z, origin.z);
    }
    Impulse {
        x: (factor as i128) * (target.x as i128 - origin.x as i128),
        y: (factor as i128) * (target.y as i128 - origin.y as i128),
        z: (factor as i128) * (target.z as i128 - origin.z as i128),
    }
}

} // verus!
