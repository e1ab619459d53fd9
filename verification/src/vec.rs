//! A minimal two-component vector.

use vstd::prelude::*;

verus! {

/// A pair of coordinates; the component type is left generic so the same
/// shape serves integer cell coordinates and sizes alike.
#[derive(Copy, Clone, Debug)]
pub struct Vec2<T> {
    pub x: T,
    pub y: T,
}

impl<T> Vec2<T> {
    /// Builds the vector from its two components.
    pub fn new(x: T, y: T) -> (r: Vec2<T>)
        ensures
            r.x == x,
            r.y == y,
    {
        Vec2 { x, y }
    }
}

/// Signed coordinates, the form the simulation core works in.
pub type Vec2i = Vec2<i32>;

} // verus!
