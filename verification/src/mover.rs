use vstd::prelude::*;

use crate::coordinate::Coordinate;
use crate::positioned::Positioned;

verus! {

/// A positioned value whose position can be replaced outright.
pub trait Mover: Positioned {
    /// Whether a coordinate is acceptable as the new position.
    spec fn can_set(&self, coordinate: Coordinate) -> bool;

    /// Replace the position with an acceptable coordinate.
    fn set_coordinate(&mut self, coordinate: &Coordinate)
        requires
            old(self).can_set(*coordinate),
        ensures
            final(self).spec_position() == *coordinate,
    ;
}

} // verus!
