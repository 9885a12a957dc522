//! Positions and areas on the terminal grid, and the game map.
use vstd::prelude::*;

verus! {

/// A cell position on the terminal grid.
#[derive(Debug, Clone, Copy, PartialEq, Eq, Structural)]
pub struct Position {
    pub x: u16,
    pub y: u16,
}

/// A rectangular area of the terminal.
#[derive(Debug, Clone, Copy, PartialEq, Eq, Structural)]
pub struct Rect {
    pub x: u16,
    pub y: u16,
    pub width: u16,
    pub height: u16,
}

impl Rect {
    pub fn new(x: u16, y: u16, width: u16, height: u16) -> (r: Rect)
        ensures
            r == (Rect { x, y, width, height }),
    {
        Rect { x, y, width, height }
    }
}

/// The game map: the playing area and the width of one case (the number
/// of terminal columns a symbol of the snake takes).
#[derive(Debug, Clone, Copy, PartialEq, Eq, Structural)]
pub struct GameMap {
    pub case_size: u16,
    pub area: Rect,
}

impl GameMap {
    pub fn new(case_size: u16, area: Rect) -> (m: GameMap)
        ensures
            m == (GameMap { case_size, area }),
    {
        GameMap { case_size, area }
    }

    pub fn get_case_size(&self) -> (cs: u16)
        ensures
            cs == self.case_size,
    {
        self.case_size
    }

    pub fn area(&self) -> (a: Rect)
        ensures
            a == self.area,
    {
        self.area
    }
}

} // verus!
