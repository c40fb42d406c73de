use vstd::prelude::*;

use crate::coordinate::Coordinate;
use crate::out_of_bounds_error::OutOfBoundsError;

verus! {

/// The main error type for a grid.
#[derive(Debug, Clone)]
#[non_exhaustive]
pub enum GridError {
    /// A coordinate, or the destination of a move, lies outside the
    /// grid's rectangle.
    OutOfBoundsError(OutOfBoundsError),
    /// A move would overwrite an existing element.
    CollisionError,
    /// The operation needs an element, but the cell at the carried
    /// coordinate is empty.
    UnoccupiedError(Coordinate),
}

} // verus!
