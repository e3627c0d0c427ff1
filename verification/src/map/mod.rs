//! The island: its tiles, the shore where erosion works, and the phases a
//! map goes through.

pub mod descriptor;
pub mod erosion;
pub mod frontier;
pub mod lifecycle;
mod tables;
pub mod tile;
pub mod world;

pub use descriptor::MapDescriptor;
pub use erosion::Erosion;
pub use frontier::LeafTiles;
pub use lifecycle::{MapSession, MapState};
pub use tile::{MapTile, MapTileHandle, TileOp, TileSinking};
pub use world::WorldMap;
