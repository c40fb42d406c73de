use vstd::prelude::*;

verus! {

/// One of the four cardinal directions.  North points toward growing `y`
/// and East toward growing `x`.
#[derive(Debug, PartialEq, Eq, Clone, Copy, Structural)]
pub enum AbsoluteDirection {
    East,
    North,
    West,
    South,
}

/// A quarter turn, seen from the object that turns.
#[derive(Debug, PartialEq, Eq, Clone, Copy, Structural)]
pub enum RelativeDirection {
    Left,
    Right,
}

/// The signed unit step along the x-axis of a move in direction `d`.
pub open spec fn unit_dx(d: AbsoluteDirection) -> int {
    match d {
        AbsoluteDirection::East => 1,
        AbsoluteDirection::West => -1,
        AbsoluteDirection::North => 0,
        AbsoluteDirection::South => 0,
    }
}

/// The signed unit step along the y-axis of a move in direction `d`.
pub open spec fn unit_dy(d: AbsoluteDirection) -> int {
    match d {
        AbsoluteDirection::North => 1,
        AbsoluteDirection::South => -1,
        AbsoluteDirection::East => 0,
        AbsoluteDirection::West => 0,
    }
}

/// The counter-clockwise neighbor of a direction.
pub open spec fn spec_increment(d: AbsoluteDirection) -> AbsoluteDirection {
    match d {
        AbsoluteDirection::East => AbsoluteDirection::North,
        AbsoluteDirection::North => AbsoluteDirection::West,
        AbsoluteDirection::West => AbsoluteDirection::South,
        AbsoluteDirection::South => AbsoluteDirection::East,
    }
}

/// The clockwise neighbor of a direction.
pub open spec fn spec_decrement(d: AbsoluteDirection) -> AbsoluteDirection {
    match d {
        AbsoluteDirection::East => AbsoluteDirection::South,
        AbsoluteDirection::North => AbsoluteDirection::East,
        AbsoluteDirection::West => AbsoluteDirection::North,
        AbsoluteDirection::South => AbsoluteDirection::West,
    }
}

/// The opposite direction.
pub open spec fn spec_inverse(d: AbsoluteDirection) -> AbsoluteDirection {
    match d {
        AbsoluteDirection::North => AbsoluteDirection::South,
        AbsoluteDirection::South => AbsoluteDirection::North,
        AbsoluteDirection::East => AbsoluteDirection::West,
        AbsoluteDirection::West => AbsoluteDirection::East,
    }
}

/// The direction reached after a relative turn.
pub open spec fn spec_turned(d: AbsoluteDirection, t: RelativeDirection) -> AbsoluteDirection {
    match t {
        RelativeDirection::Left => spec_increment(d),
        RelativeDirection::Right => spec_decrement(d),
    }
}

/// Positions of the directions on a clockwise compass card, North first.
pub open spec fn direction_score(d: AbsoluteDirection) -> int {
    match d {
        AbsoluteDirection::North => 0,
        AbsoluteDirection::East => 1,
        AbsoluteDirection::South => 2,
        AbsoluteDirection::West => 3,
    }
}

impl AbsoluteDirection {
    /// Turn a direction by a relative direction, consuming it.
    pub fn turn(self, turning_direction: &RelativeDirection) -> (r: Self)
        ensures
            r == spec_turned(self, *turning_direction),
    {
        match turning_direction {
            RelativeDirection::Left => self.increment(),
            RelativeDirection::Right => self.decrement(),
        }
    }

    /// Turn a direction by a relative direction, borrowing it.
    pub fn turned(&self, turning_direction: &RelativeDirection) -> (r: Self)
        ensures
            r == spec_turned(*self, *turning_direction),
    {
        match turning_direction {
            RelativeDirection::Left => self.incremented(),
            RelativeDirection::Right => self.decremented(),
        }
    }

    /// Turn in the counter-clockwise direction.
    pub fn increment(self) -> (r: Self)
        ensures
            r == spec_increment(self),
    {
        match self {
            AbsoluteDirection::East => AbsoluteDirection::North,
            AbsoluteDirection::North => AbsoluteDirection::West,
            AbsoluteDirection::West => AbsoluteDirection::South,
            AbsoluteDirection::South => AbsoluteDirection::East,
        }
    }

    /// Turn in the clockwise direction.
    pub fn decrement(self) -> (r: Self)
        ensures
            r == spec_decrement(self),
    {
        match self {
            AbsoluteDirection::East => AbsoluteDirection::South,
            AbsoluteDirection::North => AbsoluteDirection::East,
            AbsoluteDirection::West => AbsoluteDirection::North,
            AbsoluteDirection::South => AbsoluteDirection::West,
        }
    }

    /// The counter-clockwise neighbor of a borrowed direction.
    pub fn incremented(&self) -> (r: Self)
        ensures
            r == spec_increment(*self),
    {
        match self {
            AbsoluteDirection::East => AbsoluteDirection::North,
            AbsoluteDirection::North => AbsoluteDirection::West,
            AbsoluteDirection::West => AbsoluteDirection::South,
            AbsoluteDirection::South => AbsoluteDirection::East,
        }
    }

    /// The clockwise neighbor of a borrowed direction.
    pub fn decremented(&self) -> (r: Self)
        ensures
            r == spec_decrement(*self),
    {
        match self {
            AbsoluteDirection::East => AbsoluteDirection::South,
            AbsoluteDirection::North => AbsoluteDirection::East,
            AbsoluteDirection::West => AbsoluteDirection::North,
            AbsoluteDirection::South => AbsoluteDirection::West,
        }
    }

    /// The opposite direction: North to South, East to West, and back.
    pub fn inverse(&self) -> (r: Self)
        ensures
            r == spec_inverse(*self),
    {
        match self {
            AbsoluteDirection::North => AbsoluteDirection::South,
            AbsoluteDirection::South => AbsoluteDirection::North,
            AbsoluteDirection::East => AbsoluteDirection::West,
            AbsoluteDirection::West => AbsoluteDirection::East,
        }
    }

    /// The relative turn leading from one direction to another, where a
    /// single quarter turn suffices; `None` for the opposite direction or
    /// for the direction itself.
    pub fn to_relative_direction(
        first_direction: &Self,
        second_direction: &Self,
    ) -> (r: Option<RelativeDirection>)
        ensures
            r == Some(RelativeDirection::Right) <==> *second_direction == spec_decrement(
                *first_direction,
            ),
            r == Some(RelativeDirection::Left) <==> *second_direction == spec_increment(
                *first_direction,
            ),
            r is None <==> (*second_direction == *first_direction || *second_direction
                == spec_inverse(*first_direction)),
    {
        let first_direction_score = Self::get_direction_score(first_direction);
        let second_direction_score = Self::get_direction_score(second_direction);
        if (first_direction_score + 1) % 4 == second_direction_score {
            Some(RelativeDirection::Right)
        } else if (first_direction_score + 3) % 4 == second_direction_score {
            Some(RelativeDirection::Left)
        } else {
            None
        }
    }

    fn get_direction_score(direction: &Self) -> (r: usize)
        ensures
            r == direction_score(*direction),
    {
        match direction {
            AbsoluteDirection::North => 0,
            AbsoluteDirection::East => 1,
            AbsoluteDirection::South => 2,
            AbsoluteDirection::West => 3,
        }
    }
}

} // verus!
