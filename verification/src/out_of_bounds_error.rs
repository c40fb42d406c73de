use vstd::prelude::*;

use crate::coordinate::Coordinate;
use crate::positioned::Positioned;

verus! {

/// The failure of an operation that was handed a coordinate outside the
/// rectangular extent it works in; carries the offending coordinate.
#[derive(Debug, Clone)]
pub struct OutOfBoundsError {
    position: Coordinate,
}

impl OutOfBoundsError {
    /// Wrap the offending position into an error.
    pub fn new<C: Positioned>(position: C) -> (r: Self)
        ensures
            r.spec_position() == position.spec_position(),
    {
        Self { position: *position.position() }
    }

    /// The offending coordinate.
    pub fn position(&self) -> (r: Coordinate)
        ensures
            r == self.spec_position(),
    {
        self.position
    }

    /// The offending coordinate, as seen by specifications.
    pub closed spec fn spec_position(&self) -> Coordinate {
        self.position
    }
}

} // verus!
