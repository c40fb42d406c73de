use vstd::prelude::*;

use crate::bounded::Bounded;
use crate::bounds::Bounds;
use crate::positioned::Positioned;
use crate::region::Region;

verus! {

/// A positioned, bounded value whose four boundaries can be reassigned
/// one at a time.  Each setter validates its new boundary and, when it
/// refuses, leaves the value unchanged; a successful setter moves only
/// the named boundary, never the position.
pub trait DynamicallyBounded: Bounded + Positioned {
    /// What must hold of the value for its boundaries to be
    /// reassignable; every setter preserves it.
    spec fn dyn_wf(&self) -> bool;

    /// Whether the x-axis accepts this new western boundary.
    spec fn can_set_x_min(&self, boundary: int) -> bool;

    /// Whether the x-axis accepts this new eastern boundary.
    spec fn can_set_x_max(&self, boundary: int) -> bool;

    /// Whether the y-axis accepts this new southern boundary.
    spec fn can_set_y_min(&self, boundary: int) -> bool;

    /// Whether the y-axis accepts this new northern boundary.
    spec fn can_set_y_max(&self, boundary: int) -> bool;

    /// Reassign the western boundary.
    fn set_x_min_boundary(&mut self, boundary: i32) -> (r: Result<i32, String>)
        requires
            old(self).dyn_wf(),
        ensures
            final(self).dyn_wf(),
            final(self).spec_position() == old(self).spec_position(),
            r is Ok <==> old(self).can_set_x_min(boundary as int),
            r matches Ok(b) ==> b == boundary && final(self).region() == (Region {
                x_min: boundary as int,
                ..old(self).region()
            }) && final(self).region().wf(),
            r is Err ==> final(self).region() == old(self).region(),
    ;

    /// Reassign the eastern boundary.
    fn set_x_max_boundary(&mut self, boundary: i32) -> (r: Result<i32, String>)
        requires
            old(self).dyn_wf(),
        ensures
            final(self).dyn_wf(),
            final(self).spec_position() == old(self).spec_position(),
            r is Ok <==> old(self).can_set_x_max(boundary as int),
            r matches Ok(b) ==> b == boundary && final(self).region() == (Region {
                x_max: boundary as int,
                ..old(self).region()
            }) && final(self).region().wf(),
            r is Err ==> final(self).region() == old(self).region(),
    ;

    /// Reassign the southern boundary.
    fn set_y_min_boundary(&mut self, boundary: i32) -> (r: Result<i32, String>)
        requires
            old(self).dyn_wf(),
        ensures
            final(self).dyn_wf(),
            final(self).spec_position() == old(self).spec_position(),
            r is Ok <==> old(self).can_set_y_min(boundary as int),
            r matches Ok(b) ==> b == boundary && final(self).region() == (Region {
                y_min: boundary as int,
                ..old(self).region()
            }) && final(self).region().wf(),
            r is Err ==> final(self).region() == old(self).region(),
    ;

    /// Reassign the northern boundary.
    fn set_y_max_boundary(&mut self, boundary: i32) -> (r: Result<i32, String>)
        requires
            old(self).dyn_wf(),
        ensures
            final(self).dyn_wf(),
            final(self).spec_position() == old(self).spec_position(),
            r is Ok <==> old(self).can_set_y_max(boundary as int),
            r matches Ok(b) ==> b == boundary && final(self).region() == (Region {
                y_max: boundary as int,
                ..old(self).region()
            }) && final(self).region().wf(),
            r is Err ==> final(self).region() == old(self).region(),
    ;

    /// Take all four boundaries over from another bounded value, in the
    /// order west, south, north, east; a refused boundary stops the
    /// take-over midway and reports it, leaving the boundaries already
    /// taken over in place.
    fn inherit_boundaries(&mut self, bounded: &Bounds) -> (r: Result<(), String>)
        requires
            old(self).dyn_wf(),
            bounded.wf(),
        ensures
            final(self).dyn_wf(),
            final(self).spec_position() == old(self).spec_position(),
            r is Ok ==> final(self).region() == bounded.region(),
            r is Err ==> ({
                let r0 = old(self).region();
                let r1 = Region { x_min: bounded.region().x_min, ..r0 };
                let r2 = Region { y_min: bounded.region().y_min, ..r1 };
                let r3 = Region { y_max: bounded.region().y_max, ..r2 };
                final(self).region() == r0 || final(self).region() == r1 || final(self).region()
                    == r2 || final(self).region() == r3
            }),
    {
        proof {
            bounded.lemma_wf();
        }
        self.set_x_min_boundary(bounded.x_min_boundary())?;
        self.set_y_min_boundary(bounded.y_min_boundary())?;
        self.set_y_max_boundary(bounded.y_max_boundary())?;
        self.set_x_max_boundary(bounded.x_max_boundary())?;
        Ok(())
    }
}

} // verus!
