use vstd::math::abs;
use vstd::prelude::*;

use crate::coordinate::{move_in_range, moved_point, Coordinate};
use crate::direction::{spec_turned, AbsoluteDirection, RelativeDirection};
use crate::positioned::Positioned;

verus! {

/// An unbounded cursor: a position together with a facing direction.
pub struct MovingObject {
    current_pos: Coordinate,
    current_direction: AbsoluteDirection,
}

impl MovingObject {
    /// The facing direction, as seen by specifications.
    pub closed spec fn spec_direction(&self) -> AbsoluteDirection {
        self.current_direction
    }

    /// A cursor at the given position, facing North.
    pub fn new(current_pos: Coordinate) -> (r: Self)
        ensures
            r.spec_position() == current_pos,
            r.spec_direction() == AbsoluteDirection::North,
    {
        Self { current_pos, current_direction: AbsoluteDirection::North }
    }

    /// Turn the cursor by a quarter turn.
    pub fn turn(&mut self, dir: RelativeDirection)
        ensures
            final(self).spec_direction() == spec_turned(old(self).spec_direction(), dir),
            final(self).spec_position() == old(self).spec_position(),
    {
        match dir {
            RelativeDirection::Left => {
                let d = self.get_current_direction().incremented();
                self.set_current_direction(d);
            },
            RelativeDirection::Right => {
                let d = self.get_current_direction().decremented();
                self.set_current_direction(d);
            },
        }
    }

    /// Move the cursor by `magnitude` unit steps in its facing
    /// direction.
    pub fn move_in_current_direction(&mut self, magnitude: usize)
        requires
            magnitude <= i32::MAX,
            move_in_range(
                old(self).spec_position(),
                old(self).spec_direction(),
                magnitude as int,
            ),
        ensures
            final(self).spec_position() == moved_point(
                old(self).spec_position(),
                old(self).spec_direction(),
                magnitude as int,
            ),
            final(self).spec_direction() == old(self).spec_direction(),
    {
        let direction = self.current_direction;
        self.current_pos = self.coordinate_in_direction(direction, magnitude);
    }

    /// Move the cursor by `magnitude` unit steps in a given direction,
    /// leaving its facing direction alone.
    pub fn move_in_direction(&mut self, direction: &AbsoluteDirection, magnitude: usize)
        requires
            magnitude <= i32::MAX,
            move_in_range(old(self).spec_position(), *direction, magnitude as int),
        ensures
            final(self).spec_position() == moved_point(
                old(self).spec_position(),
                *direction,
                magnitude as int,
            ),
            final(self).spec_direction() == old(self).spec_direction(),
    {
        self.current_pos = self.coordinate_in_direction(*direction, magnitude);
    }

    /// The facing direction.
    pub fn get_current_direction(&self) -> (r: &AbsoluteDirection)
        ensures
            *r == self.spec_direction(),
    {
        &self.current_direction
    }

    /// Replace the facing direction.
    pub fn set_current_direction(&mut self, direction: AbsoluteDirection)
        ensures
            final(self).spec_direction() == direction,
            final(self).spec_position() == old(self).spec_position(),
    {
        self.current_direction = direction;
    }

    /// The manhattan distance of the cursor from the origin, as an
    /// `i32`.
    pub fn get_sum_of_current_coordinates(&self) -> (r: i32)
        requires
            self.spec_position().x > i32::MIN,
            self.spec_position().y > i32::MIN,
            abs(self.spec_position().x as int) + abs(self.spec_position().y as int) <= i32::MAX,
        ensures
            r == abs(self.spec_position().x as int) + abs(self.spec_position().y as int),
    {
        let ax = if self.current_pos.x < 0 {
            -self.current_pos.x
        } else {
            self.current_pos.x
        };
        let ay = if self.current_pos.y < 0 {
            -self.current_pos.y
        } else {
            self.current_pos.y
        };
        ax + ay
    }
}

impl Default for MovingObject {
    /// A cursor at the origin, facing North.
    fn default() -> (r: Self)
        ensures
            r.spec_position() == (Coordinate { x: 0, y: 0 }),
            r.spec_direction() == AbsoluteDirection::North,
    {
        Self::new(Coordinate { x: 0, y: 0 })
    }
}

impl Positioned for MovingObject {
    closed spec fn spec_position(&self) -> Coordinate {
        self.current_pos
    }

    fn position(&self) -> &Coordinate {
        &self.current_pos
    }
}

} // verus!
