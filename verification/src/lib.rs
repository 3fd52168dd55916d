use vstd::prelude::*;

pub mod camera;
pub mod components;
pub mod geometry;
pub mod map;
pub mod map_builder;
pub mod reach;
pub mod rng;
pub mod spawner;
pub mod store;
pub mod systems;

verus! {

/// Width of the dungeon grid, in tiles.
pub const SCREEN_WIDTH: i32 = 80;
/// Height of the dungeon grid, in tiles.
pub const SCREEN_HEIGHT: i32 = 50;
/// Width of the viewport, in tiles.
pub const DISPLAY_WIDTH: i32 = 40;
/// Height of the viewport, in tiles.
pub const DISPLAY_HEIGHT: i32 = 25;
/// Number of tiles on the grid: one per cell of the 80 by 50 grid.
pub const NUM_TILES: usize = 4000;
/// Number of rooms the generator places.
pub const NUM_ROOMS: usize = 20;
/// Cap on candidate-room draws: exhausting it is a configuration error,
/// reported by the generator rather than retried forever.
pub const ROOM_ATTEMPT_LIMIT: usize = 10000;

/// The tile count is exactly width times height.
pub proof fn lemma_num_tiles()
    ensures
        NUM_TILES == SCREEN_WIDTH * SCREEN_HEIGHT,
{
}

} // verus!
