//! The four cardinal directions.

use vstd::prelude::*;

verus! {

/// One of the four cardinal directions.
#[derive(Debug, Clone, Copy, PartialEq, Eq, Structural)]
pub enum Direction {
    /// Towards the top of the grid.
    Up,
    /// Towards the bottom of the grid.
    Down,
    /// Towards the right edge of the grid.
    Right,
    /// Towards the left edge of the grid.
    Left,
}

impl Direction {
    /// The next direction clockwise.
    pub fn next(&self) -> (r: Direction)
        ensures
            *self is Up ==> r is Right,
            *self is Right ==> r is Down,
            *self is Down ==> r is Left,
            *self is Left ==> r is Up,
    {
        match self {
            Direction::Up => Direction::Right,
            Direction::Right => Direction::Down,
            Direction::Down => Direction::Left,
            Direction::Left => Direction::Up,
        }
    }

    /// The direction as a delta, with right and down positive.
    pub fn as_delta(&self) -> (r: (i32, i32))
        ensures
            *self is Up ==> r == (0i32, -1i32),
            *self is Down ==> r == (0i32, 1i32),
            *self is Right ==> r == (1i32, 0i32),
            *self is Left ==> r == (-1i32, 0i32),
    {
        match self {
            Direction::Up => (0, -1),
            Direction::Down => (0, 1),
            Direction::Right => (1, 0),
            Direction::Left => (-1, 0),
        }
    }
}

impl Default for Direction {
    /// Rightwards, where execution starts.
    fn default() -> (r: Direction)
        ensures
            r is Right,
    {
        Direction::Right
    }
}

} // verus!
