//! Points and displacements of the world plane.

use vstd::prelude::*;
use crate::fixed::MAX_COORD;

verus! {

/// A point of the world plane, or a displacement in it, in fixed-point world
/// units. The x axis runs along the columns of the grid, the y axis along its
/// rows.
#[derive(Clone, Copy, Debug, PartialEq, Eq, Structural)]
pub struct Vector2 {
    pub x: i64,
    pub y: i64,
}

impl Vector2 {
    /// Whether both coordinates lie within the supported extent of the
    /// world, from `-MAX_COORD` to `MAX_COORD`. The extent is a limit of the
    /// fixed-point model, which computes in machine integers.
    pub open spec fn in_world(&self) -> bool {
        -MAX_COORD <= self.x <= MAX_COORD && -MAX_COORD <= self.y <= MAX_COORD
    }

    /// The point with the given coordinates.
    pub fn new(x: i64, y: i64) -> (v: Vector2)
        ensures
            v == (Vector2 { x, y }),
    {
        Vector2 { x, y }
    }

    /// Tells whether both coordinates lie within the supported extent of the
    /// world.
    pub fn is_in_world(&self) -> (b: bool)
        ensures
            b == self.in_world(),
    {
        -MAX_COORD <= self.x && self.x <= MAX_COORD && -MAX_COORD <= self.y && self.y <= MAX_COORD
    }
}

} // verus!
