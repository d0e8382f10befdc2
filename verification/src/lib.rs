//! Voidseek: the game logic of a small raycasting maze game.
//!
//! The map grid, vent placement, animation playback, input keys and the
//! grid-based collision tests live here with their contracts; the window,
//! the GPU renderer and the entity world drive them from the application.
use vstd::prelude::*;

pub mod engine;
pub mod game;

verus! {

/// Number of tile columns in the map grid.
pub const MAX_MAP_WIDTH: u32 = 8;

/// Number of tile rows in the map grid.
pub const MAX_MAP_HEIGHT: u32 = 8;

/// Number of tiles in the map grid.
pub const MAX_MAP_TILES: u32 = MAX_MAP_WIDTH * MAX_MAP_HEIGHT;

/// Edge length of one tile in world units.
pub const TILE_SIZE: u32 = 64;

} // verus!
