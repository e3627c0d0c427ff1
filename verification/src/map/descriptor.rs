//! The settings an island is made with.

use vstd::prelude::*;

verus! {

/// The settings of a map.
#[derive(Clone, Copy, Debug, PartialEq, Eq, Structural)]
pub struct MapDescriptor {
    /// The width of a tile, in steps.
    pub tile_size: u64,
    /// The height of a tile, in steps.
    pub tile_height: u64,
    /// The radius of the island, in tiles.
    pub radius: u32,
    /// How much constitution erosion takes from a tile, in millionths of a
    /// full constitution per second.
    pub constitution_reduction_rate: u32,
}

/// Whether an island of this radius and tile size can be made: the grid
/// coordinates of its tiles fit a handle, and their world coordinates an
/// `i64`.
pub open spec fn island_fits(radius: u32, tile_size: u64) -> bool {
    radius <= i32::MAX && radius * tile_size <= i64::MAX
}

impl Default for MapDescriptor {
    fn default() -> (des: MapDescriptor)
        ensures
            des == (MapDescriptor {
                tile_size: 2_000_000_000,
                tile_height: 2_000_000_000,
                radius: 8,
                constitution_reduction_rate: 3_000_000,
            }),
            des.fits(),
    {
        MapDescriptor {
            tile_size: 2_000_000_000,
            tile_height: 2_000_000_000,
            radius: 8,
            constitution_reduction_rate: 3_000_000,
        }
    }
}

impl MapDescriptor {
    /// Whether an island can be made with these settings.
    pub open spec fn fits(&self) -> bool {
        island_fits(self.radius, self.tile_size)
    }

    /// Whether an island can be made with these settings.
    pub fn is_fit(&self) -> (fit: bool)
        ensures
            fit == self.fits(),
    {
        if self.radius > i32::MAX as u32 {
            return false;
        }
        assert(self.radius * self.tile_size <= 0xffff_ffff * 0xffff_ffff_ffff_ffff)
            by (nonlinear_arith)
            requires
                self.radius <= 0xffff_ffff,
                self.tile_size <= 0xffff_ffff_ffff_ffff,
        ;
        (self.radius as u128) * (self.tile_size as u128) <= i64::MAX as u128
    }
}

} // verus!
