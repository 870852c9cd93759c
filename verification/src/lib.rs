//! Layered voxel terrain core: a deterministic fractal-noise elevation field,
//! a classifier that turns elevation into discrete per-layer tiles, a
//! bounds-checked layered grid, a change-driven visibility tracker, a FIFO
//! mutation queue, and the isometric coordinate transforms used to resolve
//! pointer input into a voxel column.
//!
//! All continuous quantities (elevation samples, noise settings, world
//! coordinates) are carried as fixed-point integers scaled by
//! [`utils::FP_ONE`], so every computation here is exact and fully specified.

use vstd::prelude::*;

pub mod map;
pub mod pipeline;
pub mod selector;
pub mod utils;

verus! {

/// Tiles per chunk along x.
pub const CHUNK_WIDTH: u32 = 64;

/// Tiles per chunk along y.
pub const CHUNK_HEIGHT: u32 = 64;

/// Chunks along x in the full map.
pub const MAP_WIDTH: u32 = 5;

/// Chunks along y in the full map.
pub const MAP_HEIGHT: u32 = 5;

/// Full map width in tiles (`MAP_WIDTH * CHUNK_WIDTH`).
pub const WIDTH: usize = 320;

/// Full map height in tiles (`MAP_HEIGHT * CHUNK_HEIGHT`).
pub const HEIGHT: usize = 320;

/// Number of z-levels (layers) in the grid.
pub const Z_LEVELS: u16 = 20;

/// Tiles in the whole grid (`WIDTH * HEIGHT * Z_LEVELS`).
pub const TOTAL_TILE_COUNT: usize = 2_048_000;

/// Batch size used when a host splits a full-grid pass across workers.
pub const TILE_BATCH_SIZE: usize = 341_333;

/// Screen width of one tile in pixels.
pub const TILE_WIDTH: usize = 32;

/// Screen height of one tile in pixels.
pub const TILE_HEIGHT: usize = 32;

/// Width of the tile-atlas texture in pixels.
pub const TEXTURE_WIDTH: usize = 192;

/// Height of the tile-atlas texture in pixels.
pub const TEXTURE_HEIGHT: usize = 32;

} // verus!
