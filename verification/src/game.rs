//! The simulation: data types, the tile grid, the entity registry, and the
//! phases of a turn.

pub mod components;
pub mod config;
pub mod enemy;
pub mod layer;
pub mod movement;
pub mod noise_field;
pub mod player;
pub mod registry;
pub mod setup;
pub mod simulation;
pub mod states;
pub mod tilemap;
