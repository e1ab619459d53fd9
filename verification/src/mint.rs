//! Interchange point type mirroring the `mint` convention: a plain pair of
//! named components that other layers can map their own vector types onto.

use vstd::prelude::*;

verus! {

/// A point with two named components.
#[derive(Copy, Clone, Debug)]
pub struct Point2<T> {
    pub x: T,
    pub y: T,
}

impl<T> Point2<T> {
    /// Builds the point from its two components.
    pub fn new(x: T, y: T) -> (r: Point2<T>)
        ensures
            r.x == x,
            r.y == y,
    {
        Point2 { x, y }
    }
}

} // verus!
