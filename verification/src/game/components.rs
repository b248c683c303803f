//! Plain value types shared by every part of the simulation.

use vstd::prelude::*;

verus! {

/// A cell of the grid, by column `x` and row `y`.
#[derive(Clone, Copy, Debug, PartialEq, Eq, Structural)]
pub struct Position {
    pub x: u32,
    pub y: u32,
}

impl Position {
    /// The cell as a pair of mathematical integers.
    pub open spec fn cell(self) -> (int, int) {
        (self.x as int, self.y as int)
    }
}

/// The texture an entity is drawn with.
#[derive(Clone, Copy, Debug, PartialEq, Eq, Structural)]
pub struct Drawable {
    pub texture_index: u16,
}

/// What an entity may do in one turn.
#[derive(Clone, Copy, Debug, PartialEq, Eq, Structural)]
pub enum Action {
    Stay,
    North,
    South,
    West,
    East,
}

impl Action {
    /// Change of `x` that the action asks for.
    pub open spec fn dx(self) -> int {
        match self {
            Action::West => -1,
            Action::East => 1,
            _ => 0,
        }
    }

    /// Change of `y` that the action asks for.
    pub open spec fn dy(self) -> int {
        match self {
            Action::North => 1,
            Action::South => -1,
            _ => 0,
        }
    }

    /// The cell that the action leads to from `from`.
    pub open spec fn target(self, from: Position) -> (int, int) {
        (from.x + self.dx(), from.y + self.dy())
    }

    /// The unit step of the action; `Stay` does not move.
    pub fn delta(self) -> (d: (i64, i64))
        ensures
            d.0 == self.dx(),
            d.1 == self.dy(),
    {
        match self {
            Action::Stay => (0, 0),
            Action::North => (0, 1),
            Action::South => (0, -1),
            Action::West => (-1, 0),
            Action::East => (1, 0),
        }
    }
}

/// Who decides for an entity.
#[derive(Clone, Copy, Debug, PartialEq, Eq, Structural)]
pub enum Role {
    /// Directed by the input of the person playing.
    Controlled,
    /// Directed by the enemy policy.
    Autonomous,
}

/// What a cell shows.
#[derive(Clone, Copy, Debug, PartialEq, Eq, Structural)]
pub enum Tile {
    Empty,
    Wall,
    /// An entity stands here, drawn with this texture.
    Occupant(u16),
}

/// Name of an entity. A name is issued once and never again.
#[derive(Clone, Copy, Debug, PartialEq, Eq, Structural)]
pub struct EntityId(pub u64);

/// One live entity.
#[derive(Clone, Copy, Debug, PartialEq, Eq, Structural)]
pub struct Entity {
    pub id: EntityId,
    pub position: Position,
    pub role: Role,
    pub drawable: Drawable,
    /// The decision for the running turn; `None` until the entity has decided
    /// and again once the decision is resolved.
    pub action: Option<Action>,
}

/// Why an operation was refused.
#[derive(Clone, Copy, Debug, PartialEq, Eq, Structural)]
pub enum GameError {
    /// A coordinate lies outside the grid.
    OutOfBounds,
    /// The cell already holds a live entity.
    PositionOccupied,
    /// No live entity has this name.
    UnknownEntity,
    /// The entity has no decision to resolve.
    NotReady,
}

} // verus!
