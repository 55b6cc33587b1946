use vstd::prelude::*;

verus! {

/// Tiles shown side by side in a row.
pub const TILES_PER_ROW: u32 = 2;

/// Width of a show's tile, and of its thumbnail, in pixels.
pub const TILE_WIDTH: u32 = 150;

/// Height of a show's tile, and of its thumbnail, in pixels.
pub const TILE_HEIGHT: u32 = 100;

/// Width of the window: one row of tiles.
pub const WINDOW_WIDTH: u32 = TILE_WIDTH * TILES_PER_ROW;

} // verus!
