use vstd::prelude::*;

use crate::coordinate::Coordinate;
use crate::positioned::Positioned;

verus! {

/// One point of a grid: either an empty placeholder that carries its own
/// logical coordinate, or an occupying object.
#[derive(Debug, Clone)]
pub enum GridCoordinate<T> {
    Empty(Coordinate),
    Object(T),
}

impl<T> GridCoordinate<T> {
    /// The occupying object, if any.
    pub open spec fn content(self) -> Option<T> {
        match self {
            GridCoordinate::Empty(_) => None,
            GridCoordinate::Object(v) => Some(v),
        }
    }
}

impl<T: Positioned> Positioned for GridCoordinate<T> {
    open spec fn spec_position(&self) -> Coordinate {
        match self {
            GridCoordinate::Empty(coordinate) => *coordinate,
            GridCoordinate::Object(object) => object.spec_position(),
        }
    }

    fn position(&self) -> &Coordinate {
        match self {
            GridCoordinate::Empty(coordinate) => coordinate,
            GridCoordinate::Object(object) => object.position(),
        }
    }
}

} // verus!
