//! Game logic of a small tile-based platformer: the components that entities
//! carry, the prefab value types, the reading of a Tiled map into sprites and
//! collision bodies, the visible region of the tile map, the input rules of
//! the player and the asset paths that the loading state asks for.
//!
//! Rendering, physics with floating-point geometry and the entity-component
//! engine stay with the program around this library.

pub mod components;
pub mod game;
pub mod load;
pub mod prefabs;
pub mod systems;
pub mod tiles;

pub use components::{Damageable, Movable, Player, Team};
pub use prefabs::{Geometry, U32U32, U32};
pub use tiles::{DrawTilesBounds, MiscTile};
