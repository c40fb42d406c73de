use vstd::prelude::*;

use crate::bounded::{Bounded, MaybeOriginBounded};
use crate::coordinate::Coordinate;
use crate::direction::AbsoluteDirection;
use crate::positioned::Positioned;
use crate::region::Region;

verus! {

/// The region with one boundary pushed outward by a single step in the
/// given direction.
pub open spec fn region_expanded(reg: Region, d: AbsoluteDirection) -> Region {
    match d {
        AbsoluteDirection::North => Region {
            x_min: reg.x_min,
            x_max: reg.x_max,
            y_min: reg.y_min,
            y_max: reg.y_max + 1,
        },
        AbsoluteDirection::South => Region {
            x_min: reg.x_min,
            x_max: reg.x_max,
            y_min: reg.y_min - 1,
            y_max: reg.y_max,
        },
        AbsoluteDirection::East => Region {
            x_min: reg.x_min,
            x_max: reg.x_max + 1,
            y_min: reg.y_min,
            y_max: reg.y_max,
        },
        AbsoluteDirection::West => Region {
            x_min: reg.x_min - 1,
            x_max: reg.x_max,
            y_min: reg.y_min,
            y_max: reg.y_max,
        },
    }
}

/// A rectangular region, stored as its four corner points.
#[derive(Debug, Clone, Copy, Hash)]
pub struct Bounds {
    northwest: Coordinate,
    southwest: Coordinate,
    northeast: Coordinate,
    southeast: Coordinate,
}

impl Bounds {
    /// The stored corners describe one rectangle with at least one
    /// point: opposite corners agree on their shared axes, and the
    /// boundaries are ordered.
    pub closed spec fn wf(self) -> bool {
        &&& self.northwest.x == self.southwest.x
        &&& self.northeast.x == self.southeast.x
        &&& self.northwest.y == self.northeast.y
        &&& self.southwest.y == self.southeast.y
        &&& self.southwest.x <= self.southeast.x
        &&& self.southwest.y <= self.northwest.y
    }

    /// Consistent corners give a well-formed region model.
    pub proof fn lemma_wf(self)
        requires
            self.wf(),
        ensures
            self.region().wf(),
    {
    }

    /// The preferred constructor: it cannot fail.  `x_len` and `y_len`
    /// are the distances between the extreme points of each axis, not
    /// point counts, so a single-point region has both lengths zero.
    pub fn new(x_min: i32, x_len: usize, y_min: i32, y_len: usize) -> (r: Self)
        requires
            x_len <= i32::MAX,
            y_len <= i32::MAX,
            x_min + x_len <= i32::MAX,
            y_min + y_len <= i32::MAX,
        ensures
            r.wf(),
            r.region() == (Region {
                x_min: x_min as int,
                x_max: x_min + x_len,
                y_min: y_min as int,
                y_max: y_min + y_len,
            }),
    {
        let northwest = Coordinate { y: y_min + y_len as i32, x: x_min };
        let northeast = Coordinate { y: y_min + y_len as i32, x: x_min + x_len as i32 };
        let southeast = Coordinate { y: y_min, x: x_min + x_len as i32 };
        let southwest = Coordinate { y: y_min, x: x_min };
        Self { northwest, southwest, northeast, southeast }
    }

    /// Push the two corners facing a direction one step outward, growing
    /// the region by one row or column on that side.
    pub fn expand_in_direction(&mut self, dir: AbsoluteDirection)
        requires
            old(self).wf(),
            dir is North ==> old(self).region().y_max < i32::MAX,
            dir is South ==> old(self).region().y_min > i32::MIN,
            dir is East ==> old(self).region().x_max < i32::MAX,
            dir is West ==> old(self).region().x_min > i32::MIN,
        ensures
            final(self).wf(),
            final(self).region() == region_expanded(old(self).region(), dir),
    {
        match dir {
            AbsoluteDirection::North => {
                self.northwest.move_in_direction(&dir, 1);
                self.northeast.move_in_direction(&dir, 1);
            },
            AbsoluteDirection::South => {
                self.southeast.move_in_direction(&dir, 1);
                self.southwest.move_in_direction(&dir, 1);
            },
            AbsoluteDirection::East => {
                self.southeast.move_in_direction(&dir, 1);
                self.northeast.move_in_direction(&dir, 1);
            },
            AbsoluteDirection::West => {
                self.northwest.move_in_direction(&dir, 1);
                self.southwest.move_in_direction(&dir, 1);
            },
        }
    }

    /// Grow the region one step northward.
    pub fn add_top_row(&mut self)
        requires
            old(self).wf(),
            old(self).region().y_max < i32::MAX,
        ensures
            final(self).wf(),
            final(self).region() == region_expanded(old(self).region(), AbsoluteDirection::North),
    {
        self.northwest = self.northwest.coordinate_in_direction(AbsoluteDirection::North, 1);
        self.northeast = self.northeast.coordinate_in_direction(AbsoluteDirection::North, 1);
    }

    /// Grow the region one step southward.
    pub fn add_bottom_row(&mut self)
        requires
            old(self).wf(),
            old(self).region().y_min > i32::MIN,
        ensures
            final(self).wf(),
            final(self).region() == region_expanded(old(self).region(), AbsoluteDirection::South),
    {
        self.southwest = self.southwest.coordinate_in_direction(AbsoluteDirection::South, 1);
        self.southeast = self.southeast.coordinate_in_direction(AbsoluteDirection::South, 1);
    }
}

impl Bounded for Bounds {
    closed spec fn region(&self) -> Region {
        Region {
            x_min: self.southwest.x as int,
            x_max: self.southeast.x as int,
            y_min: self.southwest.y as int,
            y_max: self.northeast.y as int,
        }
    }

    fn x_min_boundary(&self) -> i32 {
        self.southwest.x
    }

    fn x_max_boundary(&self) -> i32 {
        self.southeast.x
    }

    fn y_min_boundary(&self) -> i32 {
        self.southwest.y
    }

    fn y_max_boundary(&self) -> i32 {
        self.northeast.y
    }
}

impl MaybeOriginBounded for Bounds {

}

} // verus!
