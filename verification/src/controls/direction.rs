//! Direction chosen by the player for the snake.
use vstd::prelude::*;

verus! {

/// A direction of movement on the map.
#[derive(Debug, Clone, Copy, PartialEq, Eq, Structural)]
pub enum Direction {
    Up,
    Down,
    Left,
    Right,
}

impl Direction {
    /// The direction a new game starts with.
    pub fn initial() -> (d: Direction)
        ensures
            d == Direction::Right,
    {
        Direction::Right
    }
}

} // verus!
