//! A motion delta as a pair of named coordinates.

use vstd::prelude::*;

verus! {

/// A two-dimensional motion step.
#[derive(Debug, Clone, Copy, PartialEq, Eq, Structural)]
pub struct Delta {
    /// The horizontal step, positive rightwards.
    pub x: i32,
    /// The vertical step, positive downwards.
    pub y: i32,
}

impl Delta {
    /// A delta from its coordinates.
    pub fn new(x: i32, y: i32) -> (r: Delta)
        ensures
            r.x == x,
            r.y == y,
    {
        Delta { x, y }
    }
}

impl Default for Delta {
    /// One step rightwards.
    fn default() -> (r: Delta)
        ensures
            r.x == 1,
            r.y == 0,
    {
        Delta { x: 1, y: 0 }
    }
}

} // verus!
