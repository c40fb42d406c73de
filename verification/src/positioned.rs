use vstd::math::abs;
use vstd::prelude::*;

use crate::coordinate::{move_in_range, moved_point, Coordinate};
use crate::direction::AbsoluteDirection;

verus! {

/// The pair of absolute directions leading from `p` toward `t`.  Along an
/// axis the one exact direction is returned twice; otherwise the first
/// component gives the vertical and the second the horizontal direction.
pub open spec fn spec_direction_toward(p: Coordinate, t: Coordinate) -> (
    AbsoluteDirection,
    AbsoluteDirection,
) {
    if t.x == p.x {
        if t.y > p.y {
            (AbsoluteDirection::North, AbsoluteDirection::North)
        } else {
            (AbsoluteDirection::South, AbsoluteDirection::South)
        }
    } else if t.y == p.y {
        if t.x > p.x {
            (AbsoluteDirection::East, AbsoluteDirection::East)
        } else {
            (AbsoluteDirection::West, AbsoluteDirection::West)
        }
    } else {
        (
            if t.y > p.y {
                AbsoluteDirection::North
            } else {
                AbsoluteDirection::South
            },
            if t.x > p.x {
                AbsoluteDirection::East
            } else {
                AbsoluteDirection::West
            },
        )
    }
}

/// Anything that occupies a single point of the plane.
pub trait Positioned {
    /// The occupied point, as seen by specifications.
    spec fn spec_position(&self) -> Coordinate;

    /// The occupied point.
    fn position(&self) -> (c: &Coordinate)
        ensures
            *c == self.spec_position(),
    ;

    /// The x-component of the occupied point.
    fn x_coordinate(&self) -> (r: i32)
        ensures
            r == self.spec_position().x,
    {
        self.position().x
    }

    /// The y-component of the occupied point.
    fn y_coordinate(&self) -> (r: i32)
        ensures
            r == self.spec_position().y,
    {
        self.position().y
    }

    /// The manhattan distance from the occupied point to the origin.
    fn manhattan_distance_to_origin(&self) -> (r: usize)
        requires
            abs(self.spec_position().x as int) + abs(self.spec_position().y as int) <= usize::MAX,
        ensures
            r == abs(self.spec_position().x as int) + abs(self.spec_position().y as int),
    {
        let x = self.x_coordinate();
        let y = self.y_coordinate();
        let ax: i64 = if x < 0 {
            -(x as i64)
        } else {
            x as i64
        };
        let ay: i64 = if y < 0 {
            -(y as i64)
        } else {
            y as i64
        };
        (ax as usize) + (ay as usize)
    }

    /// The manhattan distance between the occupied point and another.
    fn manhattan_distance_to(&self, cord: &Coordinate) -> (r: usize)
        requires
            i32::MIN <= self.spec_position().x - cord.x <= i32::MAX,
            i32::MIN <= self.spec_position().y - cord.y <= i32::MAX,
            abs(self.spec_position().x - cord.x) + abs(self.spec_position().y - cord.y)
                <= usize::MAX,
        ensures
            r == abs(self.spec_position().x - cord.x) + abs(self.spec_position().y - cord.y),
    {
        let dx = self.x_coordinate() - cord.x;
        let dy = self.y_coordinate() - cord.y;
        let ax: i64 = if dx < 0 {
            -(dx as i64)
        } else {
            dx as i64
        };
        let ay: i64 = if dy < 0 {
            -(dy as i64)
        } else {
            dy as i64
        };
        (ax as usize) + (ay as usize)
    }

    /// The four cardinally adjacent points, in the order North, East,
    /// South, West.
    fn manhattan_neighbors(&self) -> (r: Vec<Coordinate>)
        requires
            i32::MIN < self.spec_position().x < i32::MAX,
            i32::MIN < self.spec_position().y < i32::MAX,
        ensures
            r@ == seq![
                moved_point(self.spec_position(), AbsoluteDirection::North, 1),
                moved_point(self.spec_position(), AbsoluteDirection::East, 1),
                moved_point(self.spec_position(), AbsoluteDirection::South, 1),
                moved_point(self.spec_position(), AbsoluteDirection::West, 1),
            ],
    {
        let mut result: Vec<Coordinate> = Vec::new();
        result.push(self.coordinate_in_direction(AbsoluteDirection::North, 1));
        result.push(self.coordinate_in_direction(AbsoluteDirection::East, 1));
        result.push(self.coordinate_in_direction(AbsoluteDirection::South, 1));
        result.push(self.coordinate_in_direction(AbsoluteDirection::West, 1));
        proof {
            assert(result@ =~= seq![
                moved_point(self.spec_position(), AbsoluteDirection::North, 1),
                moved_point(self.spec_position(), AbsoluteDirection::East, 1),
                moved_point(self.spec_position(), AbsoluteDirection::South, 1),
                moved_point(self.spec_position(), AbsoluteDirection::West, 1),
            ]);
        }
        result
    }

    /// The eight surrounding points, diagonals included: first the four
    /// cardinal neighbors in the order North, East, South, West, then the
    /// diagonals in the order northeast, northwest, southeast, southwest.
    fn euclid_neighbors(&self) -> (r: Vec<Coordinate>)
        requires
            i32::MIN < self.spec_position().x < i32::MAX,
            i32::MIN < self.spec_position().y < i32::MAX,
        ensures
            r@ == euclid_neighbor_seq(self.spec_position()),
    {
        let px = self.x_coordinate();
        let py = self.y_coordinate();
        let mut result: Vec<Coordinate> = Vec::new();
        result.push(Coordinate { x: px, y: py + 1 });
        result.push(Coordinate { x: px + 1, y: py });
        result.push(Coordinate { x: px, y: py - 1 });
        result.push(Coordinate { x: px - 1, y: py });
        result.push(Coordinate { x: px + 1, y: py + 1 });
        result.push(Coordinate { x: px - 1, y: py + 1 });
        result.push(Coordinate { x: px + 1, y: py - 1 });
        result.push(Coordinate { x: px - 1, y: py - 1 });
        proof {
            assert(result@ =~= euclid_neighbor_seq(self.spec_position()));
        }
        result
    }

    /// The componentwise difference between the occupied point and
    /// another value's, signed.
    fn difference(&self, other: &Self) -> (r: Coordinate)
        requires
            i32::MIN <= self.spec_position().x - other.spec_position().x <= i32::MAX,
            i32::MIN <= self.spec_position().y - other.spec_position().y <= i32::MAX,
        ensures
            r.x == self.spec_position().x - other.spec_position().x,
            r.y == self.spec_position().y - other.spec_position().y,
    {
        let x = self.x_coordinate() - other.x_coordinate();
        let y = self.y_coordinate() - other.y_coordinate();
        Coordinate { x, y }
    }

    /// The absolute directions from the occupied point toward a target;
    /// an exact direction is returned twice.
    fn direction_toward(&self, target: &Coordinate) -> (r: (
        AbsoluteDirection,
        AbsoluteDirection,
    ))
        requires
            self.spec_position() != *target,
        ensures
            r == spec_direction_toward(self.spec_position(), *target),
    {
        if target.x == self.x_coordinate() {
            if target.y > self.y_coordinate() {
                return (AbsoluteDirection::North, AbsoluteDirection::North);
            } else {
                return (AbsoluteDirection::South, AbsoluteDirection::South);
            }
        } else if target.y == self.y_coordinate() {
            if target.x > self.x_coordinate() {
                return (AbsoluteDirection::East, AbsoluteDirection::East);
            } else {
                return (AbsoluteDirection::West, AbsoluteDirection::West);
            }
        }
        let first_direction = if target.y > self.y_coordinate() {
            AbsoluteDirection::North
        } else {
            AbsoluteDirection::South
        };
        let second_direction = if target.x > self.x_coordinate() {
            AbsoluteDirection::East
        } else {
            AbsoluteDirection::West
        };
        (first_direction, second_direction)
    }

    /// Whether the occupied point and another value lie strictly on
    /// opposite sides of a row.
    fn on_opposite_sides_of_row(&self, cord: &Self, row: &i32) -> (r: bool)
        ensures
            r == ((self.spec_position().y > *row > cord.spec_position().y) || (
            cord.spec_position().y > *row > self.spec_position().y)),
    {
        (self.y_coordinate() > *row && *row > cord.y_coordinate()) || (cord.y_coordinate() > *row
            && *row > self.y_coordinate())
    }

    /// Whether the occupied point and another value lie strictly on
    /// opposite sides of a column.
    fn on_opposite_sides_of_column(&self, cord: &Self, row: &i32) -> (r: bool)
        ensures
            r == ((self.spec_position().x > *row > cord.spec_position().x) || (
            cord.spec_position().x > *row > self.spec_position().x)),
    {
        (self.x_coordinate() > *row && *row > cord.x_coordinate()) || (cord.x_coordinate() > *row
            && *row > self.x_coordinate())
    }

    /// The point reached from the occupied point by `magnitude` unit
    /// steps in `direction`.
    fn coordinate_in_direction(&self, direction: AbsoluteDirection, magnitude: usize) -> (r:
        Coordinate)
        requires
            magnitude <= i32::MAX,
            move_in_range(self.spec_position(), direction, magnitude as int),
        ensures
            r == moved_point(self.spec_position(), direction, magnitude as int),
    {
        match direction {
            AbsoluteDirection::North => Coordinate {
                x: self.x_coordinate(),
                y: self.y_coordinate() + magnitude as i32,
            },
            AbsoluteDirection::South => Coordinate {
                x: self.x_coordinate(),
                y: self.y_coordinate() - magnitude as i32,
            },
            AbsoluteDirection::East => Coordinate {
                x: self.x_coordinate() + magnitude as i32,
                y: self.y_coordinate(),
            },
            AbsoluteDirection::West => Coordinate {
                x: self.x_coordinate() - magnitude as i32,
                y: self.y_coordinate(),
            },
        }
    }
}

/// The eight surrounding points of `p` in the order that
/// `euclid_neighbors` yields them.
pub open spec fn euclid_neighbor_seq(p: Coordinate) -> Seq<Coordinate> {
    seq![
        moved_point(p, AbsoluteDirection::North, 1),
        moved_point(p, AbsoluteDirection::East, 1),
        moved_point(p, AbsoluteDirection::South, 1),
        moved_point(p, AbsoluteDirection::West, 1),
        moved_point(moved_point(p, AbsoluteDirection::North, 1), AbsoluteDirection::East, 1),
        moved_point(moved_point(p, AbsoluteDirection::North, 1), AbsoluteDirection::West, 1),
        moved_point(moved_point(p, AbsoluteDirection::South, 1), AbsoluteDirection::East, 1),
        moved_point(moved_point(p, AbsoluteDirection::South, 1), AbsoluteDirection::West, 1),
    ]
}

} // verus!
