use vstd::prelude::*;

verus! {

/// Width of one tile of the sprite sheet, in pixels.
pub const TILE_W: usize = 16;
/// Height of one tile of the sprite sheet, in pixels.
pub const TILE_H: usize = 16;

/// Columns of the logical map grid.
pub const GRID_COLS: usize = 1000;
/// Rows of the logical map grid.
pub const GRID_ROWS: usize = 800;
/// Width of the logical map grid, in pixels.
pub const GRID_W: usize = GRID_COLS * TILE_W;
/// Height of the logical map grid, in pixels.
pub const GRID_H: usize = GRID_ROWS * TILE_H;

/// Tiles along the x axis of a chunk.
pub const CHUNK_W: usize = 50;
/// Tiles along the y axis of a chunk.
pub const CHUNK_H: usize = 50;

} // verus!
