//! Fixed settings of the map and of the textures.

use vstd::prelude::*;

verus! {

/// Side of a square chunk, in cells.
pub const CHUNK_SIZE: u32 = 8;

/// Number of chunks along the x axis.
pub const N_CHUNKS_X: u32 = 3;

/// Number of chunks along the y axis.
pub const N_CHUNKS_Y: u32 = 3;

/// Number of textures in the atlas.
pub const N_TEXTURES: i32 = 3;

/// Texture of a wall tile.
pub const WALL_TEXTURE_INDEX: u16 = 0;

/// Texture of the controlled entity.
pub const PLAYER_TEXTURE_INDEX: u16 = 1;

/// Texture of an autonomous entity.
pub const ENEMY_TEXTURE_INDEX: u16 = 2;

/// A cell becomes a wall where its noise sample is greater than this.
pub const WALL_THRESHOLD: i64 = 0;

} // verus!
