use vstd::prelude::*;

use crate::bounded::{Bounded, OriginBounded};
use crate::bounds::{region_expanded, Bounds};
use crate::direction::AbsoluteDirection;
use crate::region::{centered_region, lemma_centered_axis_counts, Region};

verus! {

/// A region that is guaranteed to stay centered on the origin.
///
/// For each axis, with `count` the number of integer points inclusively
/// contained on it: an odd or zero count gives `max == -min`, and a
/// non-zero even count gives `max == -min + 1`.  For example,
/// `(x_min, x_max) == (-2, 2)` is valid with the odd count `5`, and
/// `(-1, 2)` is valid with the even count `4`.
#[derive(Debug, Clone, Copy)]
pub struct OriginCenteredBounds(Bounds);

impl OriginCenteredBounds {
    /// The structural invariant: the stored rectangle is consistent and
    /// obeys the origin-centering parity rule on both axes.
    pub closed spec fn inv(self) -> bool {
        self.0.wf() && self.0.region().is_centered()
    }

    /// The invariant implies that the public region model is well
    /// formed, centered, and has machine-representable counts.
    pub proof fn lemma_inv_region(self)
        requires
            self.inv(),
        ensures
            self.region().wf(),
            self.region().is_centered(),
            0 <= self.region().x_max <= i32::MAX,
            0 <= self.region().y_max <= i32::MAX,
            0 < self.region().x_count() <= u32::MAX,
            0 < self.region().y_count() <= u32::MAX,
    {
        self.0.lemma_wf();
    }

    /// Build the origin-centered region with the given point counts; a
    /// count of zero degenerates to the single point `0` on that axis.
    pub fn new(x_count: u64, y_count: u64) -> (r: Self)
        requires
            x_count <= i32::MAX,
            y_count <= i32::MAX,
        ensures
            r.inv(),
            r.region() == centered_region(x_count as int, y_count as int),
    {
        proof {
            lemma_centered_axis_counts(x_count as int);
            lemma_centered_axis_counts(y_count as int);
        }
        let xc = x_count as i32;
        let yc = y_count as i32;
        let x_max = xc / 2;
        let x_min: i32 = if xc % 2 == 0 && xc > 0 {
            -x_max + 1
        } else {
            -x_max
        };
        let y_max = yc / 2;
        let y_min: i32 = if yc % 2 == 0 && yc > 0 {
            -y_max + 1
        } else {
            -y_max
        };
        let bounds = Bounds::new(
            x_min,
            (x_max - x_min) as usize,
            y_min,
            (y_max - y_min) as usize,
        );
        Self(bounds)
    }

    /// Check an arbitrary rectangle against the parity rule; a valid one
    /// becomes an origin-centered region with the same extent, and an
    /// invalid one is refused with the offending boundary pair, the
    /// x-axis checked first.
    pub fn try_from(value: Bounds) -> (r: Result<Self, InvalidRegionError>)
        requires
            value.wf(),
        ensures
            value.region().is_centered() <==> r is Ok,
            r matches Ok(b) ==> b.inv() && b.region() == value.region(),
            r matches Err(e) ==> !crate::region::centered_axis(
                e.spec_min() as int,
                e.spec_max() as int,
            ) && if !crate::region::centered_axis(value.region().x_min, value.region().x_max) {
                e.spec_min() == value.region().x_min && e.spec_max() == value.region().x_max
            } else {
                e.spec_min() == value.region().y_min && e.spec_max() == value.region().y_max
            },
    {
        proof {
            value.lemma_wf();
        }
        let x_min = value.x_min_boundary();
        let x_max = value.x_max_boundary();
        let y_min = value.y_min_boundary();
        let y_max = value.y_max_boundary();
        let lx = x_min as i64;
        let hx = x_max as i64;
        let ly = y_min as i64;
        let hy = y_max as i64;
        if !(-lx == hx || -lx + 1 == hx) {
            Err(InvalidRegionError { min: x_min, max: x_max })
        } else if !(-ly == hy || -ly + 1 == hy) {
            Err(InvalidRegionError { min: y_min, max: y_max })
        } else {
            Ok(OriginCenteredBounds(value))
        }
    }

    /// Grow the region by one column, keeping it centered: West if the
    /// current x-count is even, East if it is odd.  Returns whether the
    /// region grew westwards.
    pub fn expand_bounds_horizontally(&mut self) -> (r: bool)
        requires
            old(self).inv(),
            old(self).region().x_count() < i32::MAX,
        ensures
            final(self).inv(),
            final(self).region().y_min == old(self).region().y_min,
            final(self).region().y_max == old(self).region().y_max,
            final(self).region().x_count() == old(self).region().x_count() + 1,
            r == (old(self).region().x_count() % 2 == 0),
            r ==> final(self).region() == region_expanded(
                old(self).region(),
                AbsoluteDirection::West,
            ),
            !r ==> final(self).region() == region_expanded(
                old(self).region(),
                AbsoluteDirection::East,
            ),
    {
        proof {
            self.lemma_inv_region();
        }
        if OriginBounded::x_count(self) % 2 == 0 {
            self.0.expand_in_direction(AbsoluteDirection::West);
            true
        } else {
            self.0.expand_in_direction(AbsoluteDirection::East);
            false
        }
    }

    /// Grow the region by one row, keeping it centered: South if the
    /// current y-count is even, North if it is odd.  Returns whether the
    /// region grew northwards.
    pub fn expand_bounds_vertically(&mut self) -> (r: bool)
        requires
            old(self).inv(),
            old(self).region().y_count() < i32::MAX,
        ensures
            final(self).inv(),
            final(self).region().x_min == old(self).region().x_min,
            final(self).region().x_max == old(self).region().x_max,
            final(self).region().y_count() == old(self).region().y_count() + 1,
            r == (old(self).region().y_count() % 2 != 0),
            r ==> final(self).region() == region_expanded(
                old(self).region(),
                AbsoluteDirection::North,
            ),
            !r ==> final(self).region() == region_expanded(
                old(self).region(),
                AbsoluteDirection::South,
            ),
    {
        proof {
            self.lemma_inv_region();
        }
        if OriginBounded::y_count(self) % 2 == 0 {
            self.0.expand_in_direction(AbsoluteDirection::South);
            false
        } else {
            self.0.expand_in_direction(AbsoluteDirection::North);
            true
        }
    }

    /// The number of points along the x-axis.
    pub fn x_count(&self) -> (r: usize)
        requires
            self.inv(),
        ensures
            r == self.region().x_count(),
    {
        proof {
            self.lemma_inv_region();
        }
        OriginBounded::x_count(self)
    }

    /// The number of points along the y-axis.
    pub fn y_count(&self) -> (r: usize)
        requires
            self.inv(),
        ensures
            r == self.region().y_count(),
    {
        proof {
            self.lemma_inv_region();
        }
        OriginBounded::y_count(self)
    }
}

impl Bounded for OriginCenteredBounds {
    closed spec fn region(&self) -> Region {
        self.0.region()
    }

    fn x_min_boundary(&self) -> i32 {
        self.0.x_min_boundary()
    }

    fn x_max_boundary(&self) -> i32 {
        self.0.x_max_boundary()
    }

    fn y_min_boundary(&self) -> i32 {
        self.0.y_min_boundary()
    }

    fn y_max_boundary(&self) -> i32 {
        self.0.y_max_boundary()
    }
}

impl OriginBounded for OriginCenteredBounds {
    open spec fn origin_wf(&self) -> bool {
        self.region().wf()
    }

    open spec fn spec_x_count(&self) -> int {
        self.region().x_count()
    }

    open spec fn spec_y_count(&self) -> int {
        self.region().y_count()
    }

    fn x_count(&self) -> usize {
        Bounded::x_count(self)
    }

    fn y_count(&self) -> usize {
        Bounded::y_count(self)
    }
}

/// The failure of building an origin-centered region from a rectangle
/// whose boundaries break the parity rule on some axis; carries the
/// offending boundary pair.
#[derive(Debug, Clone)]
pub struct InvalidRegionError {
    min: i32,
    max: i32,
}

impl InvalidRegionError {
    /// The offending lower boundary, as seen by specifications.
    pub closed spec fn spec_min(&self) -> i32 {
        self.min
    }

    /// The offending upper boundary, as seen by specifications.
    pub closed spec fn spec_max(&self) -> i32 {
        self.max
    }
}

} // verus!
