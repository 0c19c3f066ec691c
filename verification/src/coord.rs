//! Signed 2D world coordinates.
//!
//! World space is a plane of `i32` pairs centered near the origin. All
//! arithmetic on coordinates is overflow-checked: an unrepresentable result
//! yields `None` rather than wrapping or panicking.

use vstd::prelude::*;

verus! {

/// A world-space coordinate (or a coordinate delta).
#[derive(Clone, Copy, PartialEq, Eq, Structural, Debug)]
pub struct Coord {
    pub x: i32,
    pub y: i32,
}

impl Coord {
    /// Whether the mathematical point `(x, y)` is representable as a `Coord`.
    pub open spec fn representable(x: int, y: int) -> bool {
        i32::MIN <= x <= i32::MAX && i32::MIN <= y <= i32::MAX
    }

    pub fn new(x: i32, y: i32) -> (r: Coord)
        ensures
            r.x == x,
            r.y == y,
    {
        Coord { x, y }
    }

    /// Component-wise sum, or `None` when the sum leaves the `i32` range.
    pub fn checked_add(self, other: Coord) -> (r: Option<Coord>)
        ensures
            Self::representable(self.x + other.x, self.y + other.y) ==> r == Some(Coord {
                x: (self.x + other.x) as i32,
                y: (self.y + other.y) as i32,
            }),
            !Self::representable(self.x + other.x, self.y + other.y) ==> r is None,
    {
        let x = self.x.checked_add(other.x);
        let y = self.y.checked_add(other.y);
        match (x, y) {
            (Some(x), Some(y)) => Some(Coord { x, y }),
            _ => None,
        }
    }

    /// Component-wise difference, or `None` when it leaves the `i32` range.
    pub fn checked_sub(self, other: Coord) -> (r: Option<Coord>)
        ensures
            Self::representable(self.x - other.x, self.y - other.y) ==> r == Some(Coord {
                x: (self.x - other.x) as i32,
                y: (self.y - other.y) as i32,
            }),
            !Self::representable(self.x - other.x, self.y - other.y) ==> r is None,
    {
        let x = self.x.checked_sub(other.x);
        let y = self.y.checked_sub(other.y);
        match (x, y) {
            (Some(x), Some(y)) => Some(Coord { x, y }),
            _ => None,
        }
    }
}

} // verus!
