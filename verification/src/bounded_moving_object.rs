use vstd::math::abs;
use vstd::prelude::*;

use crate::bounded::{in_region_pred, ray_len, Bounded, MaybeOriginBounded};
use crate::bounds::Bounds;
use crate::coordinate::{move_in_range, moved_point, Coordinate};
use crate::direction::{spec_turned, AbsoluteDirection, RelativeDirection};
use crate::dynamically_bounded::DynamicallyBounded;
use crate::mover::Mover;
use crate::out_of_bounds_error::OutOfBoundsError;
use crate::positioned::{euclid_neighbor_seq, spec_direction_toward, Positioned};
use crate::region::Region;

verus! {

/// A bounded movable cursor that occupies a single point: a position, a
/// facing direction, and an owned rectangle that clamps every move.
#[derive(Clone, Debug)]
pub struct BoundedMovingObject {
    current_pos: Coordinate,
    current_direction: AbsoluteDirection,
    bounds: Bounds,
}

#[derive(Clone, Copy)]
enum Axis {
    X,
    Y,
}

#[derive(Clone, Copy)]
enum MinMax {
    Min,
    Max,
}

impl BoundedMovingObject {
    /// The structural invariant: the rectangle is consistent and the
    /// position lies within it.
    pub closed spec fn wf(self) -> bool {
        &&& self.bounds.wf()
        &&& self.bounds.region().contains(self.current_pos)
        &&& self.bounds.region().x_count() <= i32::MAX + 1
        &&& self.bounds.region().y_count() <= i32::MAX + 1
    }

    /// The facing direction, as seen by specifications.
    pub closed spec fn spec_direction(&self) -> AbsoluteDirection {
        self.current_direction
    }

    /// The invariant implies that the region model is well formed and
    /// holds the position.
    pub proof fn lemma_wf(self)
        requires
            self.wf(),
        ensures
            self.region().wf(),
            self.region().contains(self.spec_position()),
    {
        self.bounds.lemma_wf();
    }

    /// A cursor spanning the given boundaries, facing North.  The
    /// position starts at the origin when the origin is within bounds,
    /// and at the northwest corner otherwise.
    pub fn new(
        x_min_boundary: i32,
        x_max_boundary: i32,
        y_min_boundary: i32,
        y_max_boundary: i32,
    ) -> (r: Self)
        requires
            x_min_boundary <= x_max_boundary,
            y_min_boundary <= y_max_boundary,
            x_max_boundary - x_min_boundary <= i32::MAX,
            y_max_boundary - y_min_boundary <= i32::MAX,
        ensures
            r.wf(),
            r.region() == (Region {
                x_min: x_min_boundary as int,
                x_max: x_max_boundary as int,
                y_min: y_min_boundary as int,
                y_max: y_max_boundary as int,
            }),
            r.spec_direction() == AbsoluteDirection::North,
            r.spec_position() == if r.region().contains(Coordinate { x: 0, y: 0 }) {
                Coordinate { x: 0, y: 0 }
            } else {
                Coordinate { x: x_min_boundary, y: y_max_boundary }
            },
    {
        let bounds: Bounds = Bounds::new(
            x_min_boundary,
            (x_max_boundary as i64 - x_min_boundary as i64) as usize,
            y_min_boundary,
            (y_max_boundary as i64 - y_min_boundary as i64) as usize,
        );
        let mut result = Self {
            current_pos: Coordinate { x: x_min_boundary, y: y_max_boundary },
            bounds,
            current_direction: AbsoluteDirection::North,
        };
        proof {
            result.bounds.lemma_wf();
        }
        if result.is_within_bounds(&Coordinate { x: 0, y: 0 }) {
            result.current_pos = Coordinate { x: 0, y: 0 };
        }
        result
    }

    /// Face the cursor toward a target that lies in an exact cardinal
    /// direction; a diagonal target is refused and changes nothing.
    pub fn turn_toward<C: Positioned>(&mut self, target: &C) -> (r: Result<AbsoluteDirection,
        String>)
        requires
            old(self).spec_position() != target.spec_position(),
        ensures
            final(self).spec_position() == old(self).spec_position(),
            final(self).region() == old(self).region(),
            ({
                let dirs = spec_direction_toward(
                    old(self).spec_position(),
                    target.spec_position(),
                );
                if dirs.0 == dirs.1 {
                    r == Ok::<AbsoluteDirection, String>(dirs.0) && final(self).spec_direction()
                        == dirs.0
                } else {
                    r is Err && final(self).spec_direction() == old(self).spec_direction()
                }
            }),
    {
        let directions = self.direction_toward(target.position());
        if directions.0 == directions.1 {
            self.current_direction = directions.0;
            Ok(directions.0)
        } else {
            Err("no clean turn.".to_owned())
        }
    }

    /// Turn the cursor by a quarter turn.
    pub fn turn(&mut self, dir: RelativeDirection)
        ensures
            final(self).spec_direction() == spec_turned(old(self).spec_direction(), dir),
            final(self).spec_position() == old(self).spec_position(),
            final(self).region() == old(self).region(),
            old(self).wf() ==> final(self).wf(),
    {
        match dir {
            RelativeDirection::Left => {
                let d = self.direction().incremented();
                self.set_current_direction(d);
            },
            RelativeDirection::Right => {
                let d = self.direction().decremented();
                self.set_current_direction(d);
            },
        }
    }

    /// Move in the facing direction, clamping to the bounds, and report
    /// the position after the move.
    pub fn move_in_current_direction_and_return_new_pos(&mut self, magnitude: usize) -> (r:
        Coordinate)
        requires
            old(self).wf(),
            magnitude <= i32::MAX,
            move_in_range(
                old(self).spec_position(),
                old(self).spec_direction(),
                magnitude as int,
            ),
        ensures
            final(self).wf(),
            final(self).region() == old(self).region(),
            final(self).spec_direction() == old(self).spec_direction(),
            final(self).spec_position() == old(self).region().clamped(
                moved_point(
                    old(self).spec_position(),
                    old(self).spec_direction(),
                    magnitude as int,
                ),
            ),
            r == final(self).spec_position(),
    {
        let dir = *self.direction();
        self.move_in_absolute_direction(dir, magnitude);
        self.current_pos
    }

    /// The boundary that closes the extent off in a direction.
    pub fn get_signed_boundary_in_direction(&self, direction: &AbsoluteDirection) -> (r: i32)
        requires
            self.wf(),
        ensures
            r == match *direction {
                AbsoluteDirection::North => self.region().y_max,
                AbsoluteDirection::South => self.region().y_min,
                AbsoluteDirection::East => self.region().x_max,
                AbsoluteDirection::West => self.region().x_min,
            },
    {
        proof {
            self.lemma_wf();
        }
        match direction {
            AbsoluteDirection::North => self.y_max_boundary(),
            AbsoluteDirection::South => self.y_min_boundary(),
            AbsoluteDirection::East => self.x_max_boundary(),
            AbsoluteDirection::West => self.x_min_boundary(),
        }
    }

    /// The coordinate one step to the cursor's left or right, or `None`
    /// when that step would leave the bounds.
    pub fn coordinate_in_relative_direction(&self, dir: &RelativeDirection) -> (r: Option<
        Coordinate,
    >)
        requires
            self.wf(),
            move_in_range(
                self.spec_position(),
                spec_turned(self.spec_direction(), *dir),
                1,
            ),
        ensures
            ({
                let c = moved_point(
                    self.spec_position(),
                    spec_turned(self.spec_direction(), *dir),
                    1,
                );
                r == if self.region().contains(c) {
                    Some(c)
                } else {
                    None::<Coordinate>
                }
            }),
    {
        proof {
            self.lemma_wf();
        }
        let candidate_coordinate = match dir {
            RelativeDirection::Left => self.coordinate_in_direction(self.direction().incremented(), 1),
            RelativeDirection::Right => self.coordinate_in_direction(
                self.direction().decremented(),
                1,
            ),
        };
        if !self.is_within_bounds(&candidate_coordinate) {
            None
        } else {
            Some(candidate_coordinate)
        }
    }

    /// The facing direction.
    pub fn direction(&self) -> (r: &AbsoluteDirection)
        ensures
            *r == self.spec_direction(),
    {
        &self.current_direction
    }

    /// Replace the facing direction.
    pub fn set_current_direction(&mut self, direction: AbsoluteDirection)
        ensures
            final(self).spec_direction() == direction,
            final(self).spec_position() == old(self).spec_position(),
            final(self).region() == old(self).region(),
            old(self).wf() ==> final(self).wf(),
    {
        self.current_direction = direction;
    }

    /// The manhattan distance of the cursor from the origin, as an
    /// `i32`.
    pub fn sum_of_current_coordinates(&self) -> (r: i32)
        requires
            self.spec_position().x > i32::MIN,
            self.spec_position().y > i32::MIN,
            abs(self.spec_position().x as int) + abs(self.spec_position().y as int) <= i32::MAX,
        ensures
            r == abs(self.spec_position().x as int) + abs(self.spec_position().y as int),
    {
        let ax = if self.current_pos.x < 0 {
            -self.current_pos.x
        } else {
            self.current_pos.x
        };
        let ay = if self.current_pos.y < 0 {
            -self.current_pos.y
        } else {
            self.current_pos.y
        };
        ax + ay
    }

    /// Put the cursor on the western boundary, keeping its row.
    pub fn set_current_x_to_x_min(&mut self)
        requires
            old(self).wf(),
        ensures
            final(self).wf(),
            final(self).region() == old(self).region(),
            final(self).spec_direction() == old(self).spec_direction(),
            final(self).spec_position() == (Coordinate {
                x: old(self).region().x_min as i32,
                y: old(self).spec_position().y,
            }),
    {
        proof {
            self.lemma_wf();
        }
        self.current_pos.x = self.bounds.x_min_boundary();
    }

    /// Put the cursor on the eastern boundary, keeping its row.
    pub fn set_current_x_to_x_max(&mut self)
        requires
            old(self).wf(),
        ensures
            final(self).wf(),
            final(self).region() == old(self).region(),
            final(self).spec_direction() == old(self).spec_direction(),
            final(self).spec_position() == (Coordinate {
                x: old(self).region().x_max as i32,
                y: old(self).spec_position().y,
            }),
    {
        proof {
            self.lemma_wf();
        }
        self.current_pos.x = self.bounds.x_max_boundary();
    }

    /// Put the cursor on the southern boundary, keeping its column.
    pub fn set_current_y_to_y_min(&mut self)
        requires
            old(self).wf(),
        ensures
            final(self).wf(),
            final(self).region() == old(self).region(),
            final(self).spec_direction() == old(self).spec_direction(),
            final(self).spec_position() == (Coordinate {
                x: old(self).spec_position().x,
                y: old(self).region().y_min as i32,
            }),
    {
        proof {
            self.lemma_wf();
        }
        self.current_pos.y = self.bounds.y_min_boundary();
    }

    /// Put the cursor on the northern boundary, keeping its column.
    pub fn set_current_y_to_y_max(&mut self)
        requires
            old(self).wf(),
        ensures
            final(self).wf(),
            final(self).region() == old(self).region(),
            final(self).spec_direction() == old(self).spec_direction(),
            final(self).spec_position() == (Coordinate {
                x: old(self).spec_position().x,
                y: old(self).region().y_max as i32,
            }),
    {
        proof {
            self.lemma_wf();
        }
        self.current_pos.y = self.bounds.y_max_boundary();
    }

    /// The ordered ray of in-bounds coordinates strictly beyond the
    /// cursor in a direction.
    pub fn coordinates_in_direction(&self, direction: AbsoluteDirection) -> (r: Vec<Coordinate>)
        requires
            self.wf(),
            move_in_range(self.spec_position(), direction, 1),
        ensures
            r@.len() == ray_len(self.region(), self.spec_position(), direction),
            forall|i: int|
                0 <= i < r@.len() ==> r@[i] == moved_point(self.spec_position(), direction, i + 1),
    {
        proof {
            self.lemma_wf();
        }
        let position = self.current_pos;
        self.coordinates_in_direction_from(&position, direction)
    }

    /// The surrounding points of the cursor, diagonals included,
    /// filtered to those within its bounds.
    pub fn bounded_neighbors(&self) -> (r: Vec<Coordinate>)
        requires
            self.wf(),
            i32::MIN < self.spec_position().x < i32::MAX,
            i32::MIN < self.spec_position().y < i32::MAX,
        ensures
            r@ == euclid_neighbor_seq(self.spec_position()).filter(in_region_pred(self.region())),
    {
        proof {
            self.lemma_wf();
        }
        let position = self.current_pos;
        self.bounded_neighbors_to(&position)
    }

    /// Whether the cursor stands on one of its four boundary lines.
    pub fn is_on_border(&self) -> (r: bool)
        requires
            self.wf(),
        ensures
            r == self.region().on_border(self.spec_position()),
    {
        proof {
            self.lemma_wf();
        }
        let position = self.current_pos;
        self.other_is_on_border(&position)
    }

    /// Move the cursor by `magnitude` unit steps in a direction,
    /// clamping each axis independently into its boundary interval.
    /// Reports whether the clamped destination differs from the origin
    /// of the move.
    pub fn move_in_absolute_direction(&mut self, direction: AbsoluteDirection, magnitude: usize)
        -> (r: bool)
        requires
            old(self).wf(),
            magnitude <= i32::MAX,
            move_in_range(old(self).spec_position(), direction, magnitude as int),
        ensures
            final(self).wf(),
            final(self).region() == old(self).region(),
            final(self).spec_direction() == old(self).spec_direction(),
            final(self).spec_position() == old(self).region().clamped(
                moved_point(old(self).spec_position(), direction, magnitude as int),
            ),
            r == (final(self).spec_position() != old(self).spec_position()),
    {
        proof {
            self.lemma_wf();
        }
        let previous_coordinate = self.current_pos;
        let new_potential_coordinate = self.coordinate_in_direction(direction, magnitude);
        let mut x = new_potential_coordinate.x;
        if x > self.bounds.x_max_boundary() {
            x = self.bounds.x_max_boundary();
        }
        if x < self.bounds.x_min_boundary() {
            x = self.bounds.x_min_boundary();
        }
        let mut y = new_potential_coordinate.y;
        if y > self.bounds.y_max_boundary() {
            y = self.bounds.y_max_boundary();
        }
        if y < self.bounds.y_min_boundary() {
            y = self.bounds.y_min_boundary();
        }
        self.current_pos = Coordinate { x, y };
        previous_coordinate != self.current_pos
    }

    /// A cursor spanning the same extent as any bounded value.
    pub fn from_bounded<B: Bounded>(value: &B) -> (r: Self)
        requires
            value.region().wf(),
            value.region().x_count() <= i32::MAX + 1,
            value.region().y_count() <= i32::MAX + 1,
        ensures
            r.wf(),
            r.region() == value.region(),
            r.spec_direction() == AbsoluteDirection::North,
            r.spec_position() == if value.region().contains(Coordinate { x: 0, y: 0 }) {
                Coordinate { x: 0, y: 0 }
            } else {
                Coordinate {
                    x: value.region().x_min as i32,
                    y: value.region().y_max as i32,
                }
            },
    {
        let x_min = value.x_min_boundary();
        let x_max = value.x_max_boundary();
        let y_min = value.y_min_boundary();
        let y_max = value.y_max_boundary();
        BoundedMovingObject::new(x_min, x_max, y_min, y_max)
    }

    /// A cursor spanning the same extent as a bounded value, put on a
    /// chosen starting coordinate; a coordinate outside the extent is
    /// refused.
    pub fn try_from<B: Bounded, C: Positioned>(value: (&B, &C)) -> (r: Result<
        Self,
        OutOfBoundsError,
    >)
        requires
            value.0.region().wf(),
            value.0.region().x_count() <= i32::MAX + 1,
            value.0.region().y_count() <= i32::MAX + 1,
        ensures
            value.0.region().contains(value.1.spec_position()) <==> r is Ok,
            r matches Ok(m) ==> m.wf() && m.region() == value.0.region() && m.spec_position()
                == value.1.spec_position() && m.spec_direction() == AbsoluteDirection::North,
            r matches Err(e) ==> e.spec_position() == value.1.spec_position(),
    {
        let mut result = Self::new(
            value.0.x_min_boundary(),
            value.0.x_max_boundary(),
            value.0.y_min_boundary(),
            value.0.y_max_boundary(),
        );
        proof {
            result.lemma_wf();
        }
        if result.is_within_bounds(value.1.position()) {
            result.set_coordinate(value.1.position());
            Ok(result)
        } else {
            Err(OutOfBoundsError::new(*value.1.position()))
        }
    }

    fn set_boundary(&mut self, axis: Axis, minmax: MinMax, boundary: i32) -> (r: Result<
        i32,
        String,
    >)
        requires
            old(self).wf(),
        ensures
            final(self).wf(),
            final(self).spec_position() == old(self).spec_position(),
            final(self).spec_direction() == old(self).spec_direction(),
            r is Ok <==> old(self).boundary_ok(axis, minmax, boundary as int),
            r matches Ok(b) ==> b == boundary && final(self).region() == with_boundary(
                old(self).region(),
                axis,
                minmax,
                boundary as int,
            ),
            r is Err ==> *final(self) == *old(self),
    {
        proof {
            self.lemma_wf();
        }
        let previous_min: i32;
        let previous_max: i32;
        let pos: i32;
        match axis {
            Axis::Y => {
                previous_min = self.bounds.y_min_boundary();
                previous_max = self.bounds.y_max_boundary();
                pos = self.current_pos.y;
            },
            Axis::X => {
                previous_min = self.bounds.x_min_boundary();
                previous_max = self.bounds.x_max_boundary();
                pos = self.current_pos.x;
            },
        }
        let new_min: i32;
        let new_max: i32;
        match minmax {
            MinMax::Min => {
                if previous_max < boundary {
                    return Err("New min greater than previous min".to_owned());
                } else if pos < boundary {
                    return Err("Current position smaller than new min".to_owned());
                }
                new_min = boundary;
                new_max = previous_max;
            },
            MinMax::Max => {
                if previous_min > boundary {
                    return Err("New max smaller than previous min".to_owned());
                } else if pos > boundary {
                    return Err("Current position greater than new max".to_owned());
                }
                new_min = previous_min;
                new_max = boundary;
            },
        }
        if new_max as i64 - new_min as i64 > i32::MAX as i64 {
            return Err("New boundary spans more than the coordinate range".to_owned());
        }
        let len = (new_max as i64 - new_min as i64) as usize;
        match axis {
            Axis::Y => {
                let x_min = self.bounds.x_min_boundary();
                let x_len = (self.bounds.x_max_boundary() as i64 - x_min as i64) as usize;
                self.bounds = Bounds::new(x_min, x_len, new_min, len);
            },
            Axis::X => {
                let y_min = self.bounds.y_min_boundary();
                let y_len = (self.bounds.y_max_boundary() as i64 - y_min as i64) as usize;
                self.bounds = Bounds::new(new_min, len, y_min, y_len);
            },
        }
        Ok(boundary)
    }

    /// Whether the axis picked by `axis` and `minmax` accepts `b` as its
    /// new boundary: it must keep the axis ordered, keep the current
    /// position inside, and span a machine-representable distance.
    spec fn boundary_ok(self, axis: Axis, minmax: MinMax, b: int) -> bool {
        let bound_pair = match axis {
            Axis::X => (self.region().x_min, self.region().x_max),
            Axis::Y => (self.region().y_min, self.region().y_max),
        };
        let p = match axis {
            Axis::X => self.spec_position().x as int,
            Axis::Y => self.spec_position().y as int,
        };
        match minmax {
            MinMax::Min => b <= bound_pair.1 && b <= p && bound_pair.1 - b <= i32::MAX,
            MinMax::Max => b >= bound_pair.0 && b >= p && b - bound_pair.0 <= i32::MAX,
        }
    }
}

/// The region with the boundary picked by `axis` and `minmax` replaced
/// by `b`.
spec fn with_boundary(reg: Region, axis: Axis, minmax: MinMax, b: int) -> Region {
    match (axis, minmax) {
        (Axis::X, MinMax::Min) => Region { x_min: b, ..reg },
        (Axis::X, MinMax::Max) => Region { x_max: b, ..reg },
        (Axis::Y, MinMax::Min) => Region { y_min: b, ..reg },
        (Axis::Y, MinMax::Max) => Region { y_max: b, ..reg },
    }
}

impl Positioned for BoundedMovingObject {
    closed spec fn spec_position(&self) -> Coordinate {
        self.current_pos
    }

    fn position(&self) -> &Coordinate {
        &self.current_pos
    }
}

impl Mover for BoundedMovingObject {
    open spec fn can_set(&self, coordinate: Coordinate) -> bool {
        self.wf() && self.region().contains(coordinate)
    }

    fn set_coordinate(&mut self, coordinate: &Coordinate)
        ensures
            final(self).wf(),
            final(self).region() == old(self).region(),
            final(self).spec_direction() == old(self).spec_direction(),
    {
        self.current_pos = *coordinate;
    }
}

impl Bounded for BoundedMovingObject {
    closed spec fn region(&self) -> Region {
        self.bounds.region()
    }

    fn x_min_boundary(&self) -> i32 {
        self.bounds.x_min_boundary()
    }

    fn x_max_boundary(&self) -> i32 {
        self.bounds.x_max_boundary()
    }

    fn y_min_boundary(&self) -> i32 {
        self.bounds.y_min_boundary()
    }

    fn y_max_boundary(&self) -> i32 {
        self.bounds.y_max_boundary()
    }
}

impl MaybeOriginBounded for BoundedMovingObject {

}

impl DynamicallyBounded for BoundedMovingObject {
    open spec fn dyn_wf(&self) -> bool {
        self.wf()
    }

    open spec fn can_set_x_min(&self, boundary: int) -> bool {
        boundary <= self.region().x_max && boundary <= self.spec_position().x
            && self.region().x_max - boundary <= i32::MAX
    }

    open spec fn can_set_x_max(&self, boundary: int) -> bool {
        boundary >= self.region().x_min && boundary >= self.spec_position().x && boundary
            - self.region().x_min <= i32::MAX
    }

    open spec fn can_set_y_min(&self, boundary: int) -> bool {
        boundary <= self.region().y_max && boundary <= self.spec_position().y
            && self.region().y_max - boundary <= i32::MAX
    }

    open spec fn can_set_y_max(&self, boundary: int) -> bool {
        boundary >= self.region().y_min && boundary >= self.spec_position().y && boundary
            - self.region().y_min <= i32::MAX
    }

    fn set_y_max_boundary(&mut self, boundary: i32) -> Result<i32, String> {
        let r = self.set_boundary(Axis::Y, MinMax::Max, boundary);
        proof {
            self.lemma_wf();
            assert(old(self).boundary_ok(Axis::Y, MinMax::Max, boundary as int) == old(
                self,
            ).can_set_y_max(boundary as int));
        }
        r
    }

    fn set_y_min_boundary(&mut self, boundary: i32) -> Result<i32, String> {
        let r = self.set_boundary(Axis::Y, MinMax::Min, boundary);
        proof {
            self.lemma_wf();
            assert(old(self).boundary_ok(Axis::Y, MinMax::Min, boundary as int) == old(
                self,
            ).can_set_y_min(boundary as int));
        }
        r
    }

    fn set_x_max_boundary(&mut self, boundary: i32) -> Result<i32, String> {
        let r = self.set_boundary(Axis::X, MinMax::Max, boundary);
        proof {
            self.lemma_wf();
            assert(old(self).boundary_ok(Axis::X, MinMax::Max, boundary as int) == old(
                self,
            ).can_set_x_max(boundary as int));
        }
        r
    }

    fn set_x_min_boundary(&mut self, boundary: i32) -> Result<i32, String> {
        let r = self.set_boundary(Axis::X, MinMax::Min, boundary);
        proof {
            self.lemma_wf();
            assert(old(self).boundary_ok(Axis::X, MinMax::Min, boundary as int) == old(
                self,
            ).can_set_x_min(boundary as int));
        }
        r
    }
}

} // verus!
