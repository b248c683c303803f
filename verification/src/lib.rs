//! A turn-based roguelike on a bounded tile grid.
//!
//! One controlled entity and any number of autonomous entities share a
//! rectangular grid of cells. A turn runs through four phases: the controlled
//! entity decides, the autonomous entities decide, every decision is resolved
//! in registration order, and the displayed tiles are rebuilt from the
//! entities. All state is explicit and handed to each phase by reference.

pub mod game;
