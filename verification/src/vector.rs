//! Two-dimensional integer vectors used for positions, motion deltas and
//! storage offsets in funge-space.

use vstd::prelude::*;

verus! {

/// A 2-dimensional vector with signed integer coordinates.
///
/// Negation wraps at `i32::MIN` (the component keeps its value), so that
/// reversing a motion delta is total.
#[derive(Debug, Clone, Copy, PartialEq, Eq, Structural)]
pub struct FungeVector(pub i32, pub i32);

/// Mathematical negation of one coordinate, wrapping at `i32::MIN`.
pub open spec fn spec_neg(v: i32) -> i32 {
    if v == i32::MIN {
        i32::MIN
    } else {
        (0 - v) as i32
    }
}

impl FungeVector {
    /// Whether either coordinate is negative, as a spec predicate.
    pub open spec fn is_spec_negative(&self) -> bool {
        self.0 < 0 || self.1 < 0
    }

    /// Negate each dimension.
    pub fn invert(&mut self)
        ensures
            final(self).0 == spec_neg(old(self).0),
            final(self).1 == spec_neg(old(self).1),
    {
        if self.0 != i32::MIN {
            self.0 = -self.0;
        }
        if self.1 != i32::MIN {
            self.1 = -self.1;
        }
    }

    /// The result of rotating this vector 90 degrees counterclockwise
    /// (with the y axis pointing down, as on the grid).
    pub fn left(&self) -> (r: FungeVector)
        ensures
            r.0 == self.1,
            r.1 == spec_neg(self.0),
    {
        FungeVector(self.1, if self.0 == i32::MIN { i32::MIN } else { -self.0 })
    }

    /// Rotate this vector 90 degrees counterclockwise in place.
    pub fn turn_left(&mut self)
        ensures
            final(self).0 == old(self).1,
            final(self).1 == spec_neg(old(self).0),
    {
        let r = self.left();
        self.0 = r.0;
        self.1 = r.1;
    }

    /// The result of rotating this vector 90 degrees clockwise.
    pub fn right(&self) -> (r: FungeVector)
        ensures
            r.0 == spec_neg(self.1),
            r.1 == self.0,
    {
        FungeVector(if self.1 == i32::MIN { i32::MIN } else { -self.1 }, self.0)
    }

    /// Rotate this vector 90 degrees clockwise in place.
    pub fn turn_right(&mut self)
        ensures
            final(self).0 == spec_neg(old(self).1),
            final(self).1 == old(self).0,
    {
        let r = self.right();
        self.0 = r.0;
        self.1 = r.1;
    }

    /// Whether either coordinate is less than zero.
    pub fn is_negative(&self) -> (r: bool)
        ensures
            r == self.is_spec_negative(),
    {
        self.0 < 0 || self.1 < 0
    }

    /// Componentwise addition, saturating at the bounds of `i32`.
    pub fn plus(&self, rhs: FungeVector) -> (r: FungeVector)
        ensures
            r.0 == sat_add(self.0, rhs.0),
            r.1 == sat_add(self.1, rhs.1),
    {
        FungeVector(sat_add_exec(self.0, rhs.0), sat_add_exec(self.1, rhs.1))
    }
}

/// Addition on `i32`, saturating at the type's bounds.
pub open spec fn sat_add(a: i32, b: i32) -> i32 {
    if a + b > i32::MAX {
        i32::MAX
    } else if a + b < i32::MIN {
        i32::MIN
    } else {
        (a + b) as i32
    }
}

/// Compute `sat_add` executably.
pub fn sat_add_exec(a: i32, b: i32) -> (r: i32)
    ensures
        r == sat_add(a, b),
{
    match a.checked_add(b) {
        Some(v) => v,
        None => if b > 0 {
            i32::MAX
        } else {
            i32::MIN
        },
    }
}

/// The zero vector.
pub fn origin() -> (v: FungeVector)
    ensures
        v == (FungeVector(0i32, 0i32)),
{
    FungeVector(0, 0)
}

/// The unit vector pointing up the grid.
pub fn north() -> (v: FungeVector)
    ensures
        v == (FungeVector(0i32, -1i32)),
{
    FungeVector(0, -1)
}

/// The unit vector pointing down the grid.
pub fn south() -> (v: FungeVector)
    ensures
        v == (FungeVector(0i32, 1i32)),
{
    FungeVector(0, 1)
}

/// The unit vector pointing rightwards.
pub fn east() -> (v: FungeVector)
    ensures
        v == (FungeVector(1i32, 0i32)),
{
    FungeVector(1, 0)
}

/// The unit vector pointing leftwards.
pub fn west() -> (v: FungeVector)
    ensures
        v == (FungeVector(-1i32, 0i32)),
{
    FungeVector(-1, 0)
}

/// The four cardinal unit vectors.
pub open spec fn is_cardinal(v: FungeVector) -> bool {
    v == (FungeVector(0i32, -1i32)) || v == (FungeVector(0i32, 1i32)) || v == (FungeVector(1i32, 0i32)) || v == (
    FungeVector(-1i32, 0i32))
}

} // verus!
