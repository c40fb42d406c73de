use vstd::prelude::*;

use crate::direction::{unit_dx, unit_dy, AbsoluteDirection};
use crate::positioned::Positioned;

verus! {

/// A two-dimensional point.
#[derive(Debug, PartialEq, Eq, Copy, Clone, Hash, Structural)]
pub struct Coordinate {
    pub x: i32,
    pub y: i32,
}

/// The point reached from `c` by `m` unit steps in direction `d`.
pub open spec fn moved_point(c: Coordinate, d: AbsoluteDirection, m: int) -> Coordinate {
    Coordinate { x: (c.x + unit_dx(d) * m) as i32, y: (c.y + unit_dy(d) * m) as i32 }
}

/// Whether moving `m` unit steps from `c` in direction `d` stays within
/// the `i32` coordinate range.
pub open spec fn move_in_range(c: Coordinate, d: AbsoluteDirection, m: int) -> bool {
    &&& i32::MIN <= c.x + unit_dx(d) * m <= i32::MAX
    &&& i32::MIN <= c.y + unit_dy(d) * m <= i32::MAX
}

impl Coordinate {
    /// The offset vector of a move from the origin: `magnitude` unit
    /// steps in `direction`.
    pub fn coordinate_in_direction(direction: &AbsoluteDirection, magnitude: usize) -> (r: Self)
        requires
            magnitude <= i32::MAX,
        ensures
            r == moved_point(Coordinate { x: 0, y: 0 }, *direction, magnitude as int),
    {
        match direction {
            AbsoluteDirection::North => Coordinate { x: 0, y: magnitude as i32 },
            AbsoluteDirection::South => Coordinate { x: 0, y: -(magnitude as i32) },
            AbsoluteDirection::East => Coordinate { x: magnitude as i32, y: 0 },
            AbsoluteDirection::West => Coordinate { x: -(magnitude as i32), y: 0 },
        }
    }

    /// Move the point in place by `magnitude` unit steps in `direction`.
    pub fn move_in_direction(&mut self, direction: &AbsoluteDirection, magnitude: usize)
        requires
            magnitude <= i32::MAX,
            move_in_range(*old(self), *direction, magnitude as int),
        ensures
            *final(self) == moved_point(*old(self), *direction, magnitude as int),
    {
        match direction {
            AbsoluteDirection::North => self.y = self.y + magnitude as i32,
            AbsoluteDirection::East => self.x = self.x + magnitude as i32,
            AbsoluteDirection::West => self.x = self.x - magnitude as i32,
            AbsoluteDirection::South => self.y = self.y - magnitude as i32,
        }
    }

    /// Whether the point lies on the row or north of it.
    pub fn is_above_row(&self, row: i32) -> (r: bool)
        ensures
            r == (self.y >= row),
    {
        self.y >= row
    }

    /// Whether the point lies on the row or south of it.
    pub fn is_below_row(&self, row: i32) -> (r: bool)
        ensures
            r == (self.y <= row),
    {
        self.y <= row
    }
}

impl Default for Coordinate {
    /// The origin.
    fn default() -> (r: Self)
        ensures
            r == (Coordinate { x: 0, y: 0 }),
    {
        Coordinate { x: 0, y: 0 }
    }
}

impl core::ops::Add for Coordinate {
    type Output = Coordinate;

    /// Componentwise sum of two points.
    fn add(self, other: Coordinate) -> (r: Coordinate) {
        Coordinate { x: self.x + other.x, y: self.y + other.y }
    }
}

impl vstd::std_specs::ops::AddSpecImpl for Coordinate {
    open spec fn obeys_add_spec() -> bool {
        true
    }

    open spec fn add_req(self, other: Coordinate) -> bool {
        &&& i32::MIN <= self.x + other.x <= i32::MAX
        &&& i32::MIN <= self.y + other.y <= i32::MAX
    }

    open spec fn add_spec(self, other: Coordinate) -> Coordinate {
        Coordinate { x: (self.x + other.x) as i32, y: (self.y + other.y) as i32 }
    }
}

impl Positioned for Coordinate {
    open spec fn spec_position(&self) -> Coordinate {
        *self
    }

    fn position(&self) -> (c: &Coordinate) {
        self
    }
}

} // verus!
