use vstd::prelude::*;

verus! {

/// A direction of travel on the grid. `Idle` is the absence of one.
///
/// The same four names also label the sides of a tile: the tile on the `Up`
/// side is the one an entity reaches by moving `Up`.
#[derive(Debug, Clone, Copy, PartialEq, Eq, Structural)]
pub enum MovementDirection {
    Up,
    Right,
    Down,
    Left,
    Idle,
}

impl MovementDirection {
    /// The direction that undoes `self`; `Idle` is its own opposite.
    pub open spec fn opposite(self) -> MovementDirection {
        match self {
            MovementDirection::Up => MovementDirection::Down,
            MovementDirection::Right => MovementDirection::Left,
            MovementDirection::Down => MovementDirection::Up,
            MovementDirection::Left => MovementDirection::Right,
            MovementDirection::Idle => MovementDirection::Idle,
        }
    }

    /// How many frames to the right of the first the pictures for going in
    /// direction `self` start on a sprite sheet; for `Idle`, those for the
    /// direction last faced.
    pub open spec fn sheet_offset(self, facing: MovementDirection) -> int {
        match self {
            MovementDirection::Up => 4,
            MovementDirection::Right => 0,
            MovementDirection::Down => 12,
            MovementDirection::Left => 8,
            MovementDirection::Idle => match facing {
                MovementDirection::Up => 4,
                MovementDirection::Right => 0,
                MovementDirection::Down => 12,
                MovementDirection::Left => 8,
                MovementDirection::Idle => 0,
            },
        }
    }
}

} // verus!
