//! The field the swarm lives in, and the fixed-point unit that positions
//! are measured in.

use vstd::prelude::*;

verus! {

/// Positions are exact fixed-point numbers: one field unit is `UNIT`
/// position units. A heading of `h` degrees moves a member by whole
/// ninetieths of a field unit, so with `UNIT == 90` every position a member
/// can reach is represented without rounding.
pub const UNIT: i64 = 90;

/// Width of the field in field units.
pub const FIELD_COLUMNS: i32 = 800;

/// Height of the field in field units.
pub const FIELD_ROWS: i32 = 600;

/// Width of the field in position units (`FIELD_COLUMNS * UNIT`).
pub const FIELD_WIDTH: i64 = 72000;

/// Height of the field in position units (`FIELD_ROWS * UNIT`).
pub const FIELD_HEIGHT: i64 = 54000;

/// The two kinds of wall a member can run into.
#[derive(Clone, Copy, Debug, PartialEq, Eq, Structural)]
pub enum Wall {
    /// The left or the right wall.
    Side,
    /// The top or the bottom wall.
    Flat,
}

/// A position in the plane, in position units.
#[derive(Clone, Copy, Debug, PartialEq, Eq, Structural)]
pub struct Point {
    pub x: i64,
    pub y: i64,
}

impl Point {
    /// The point with the given coordinates.
    pub fn new(x: i64, y: i64) -> (p: Point)
        ensures
            p.x == x,
            p.y == y,
    {
        Point { x, y }
    }
}

} // verus!
