//! Building the map at the start of a game.

use vstd::prelude::*;
use crate::game::config::{CHUNK_SIZE, N_CHUNKS_X, N_CHUNKS_Y, WALL_THRESHOLD};
use crate::game::noise_field::NoiseField;
use crate::game::tilemap::{noisy_cells, TilemapGrid};

verus! {

/// Builds the configured map: `N_CHUNKS_X` by `N_CHUNKS_Y` chunks of side
/// `CHUNK_SIZE`, with a wall on every cell whose sample in `noise_field` is
/// greater than `WALL_THRESHOLD`, and no object tile yet.
pub fn setup(noise_field: &NoiseField) -> (grid: TilemapGrid)
    requires
        noise_field.wf(),
    ensures
        grid.wf(),
        grid.spec_chunk_size() == CHUNK_SIZE,
        grid.spec_width() == CHUNK_SIZE * N_CHUNKS_X,
        grid.spec_height() == CHUNK_SIZE * N_CHUNKS_Y,
        grid.walls() == noisy_cells(
            noise_field,
            WALL_THRESHOLD as int,
            (CHUNK_SIZE * N_CHUNKS_X) as int,
            (CHUNK_SIZE * N_CHUNKS_Y) as int,
        ),
        grid.occupants() == Map::<(int, int), u16>::empty(),
{
    let mut grid = TilemapGrid::new(CHUNK_SIZE, N_CHUNKS_X, N_CHUNKS_Y).unwrap();
    grid.generate_walls(noise_field, WALL_THRESHOLD);
    grid
}

} // verus!
