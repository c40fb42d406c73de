use vstd::arithmetic::div_mod::lemma_fundamental_div_mod_converse;
use vstd::prelude::*;

use crate::coordinate::Coordinate;

verus! {

/// The ghost model of a rectangular region: its four scalar boundaries
/// as unbounded integers.  Every bounded type of this crate describes its
/// extent through a `Region`, and the contracts of corner queries,
/// containment tests and coordinate-index mappings are stated over it.
pub struct Region {
    pub x_min: int,
    pub x_max: int,
    pub y_min: int,
    pub y_max: int,
}

impl Region {
    /// A region is well formed when each axis holds at least one point
    /// and its boundaries are machine representable.
    pub open spec fn wf(self) -> bool {
        &&& i32::MIN <= self.x_min <= self.x_max <= i32::MAX
        &&& i32::MIN <= self.y_min <= self.y_max <= i32::MAX
    }

    /// The number of integer points along the x-axis, bounds inclusive.
    pub open spec fn x_count(self) -> int {
        self.x_max - self.x_min + 1
    }

    /// The number of integer points along the y-axis, bounds inclusive.
    pub open spec fn y_count(self) -> int {
        self.y_max - self.y_min + 1
    }

    /// The number of integer points contained in the region.
    pub open spec fn area(self) -> int {
        self.x_count() * self.y_count()
    }

    /// Whether a coordinate lies inside the region, borders inclusive.
    pub open spec fn contains(self, c: Coordinate) -> bool {
        self.x_min <= c.x <= self.x_max && self.y_min <= c.y <= self.y_max
    }

    /// Whether a coordinate lies on one of the four boundary lines.
    pub open spec fn on_border(self, c: Coordinate) -> bool {
        c.x == self.x_min || c.x == self.x_max || c.y == self.y_min || c.y == self.y_max
    }

    /// The row-major index of a contained coordinate, counted from the
    /// northwest corner: west to east within a row, rows north to south.
    pub open spec fn index_of(self, c: Coordinate) -> int {
        (self.y_max - c.y) * self.x_count() + (c.x - self.x_min)
    }

    /// The coordinate at a row-major index; the inverse of `index_of` on
    /// indices below `area()`.
    pub open spec fn coord_at(self, index: int) -> Coordinate {
        Coordinate {
            x: (self.x_min + index % self.x_count()) as i32,
            y: (self.y_max - index / self.x_count()) as i32,
        }
    }

    /// The nearest point of the region to a coordinate, clamping each
    /// axis independently into its boundary interval.
    pub open spec fn clamped(self, c: Coordinate) -> Coordinate {
        Coordinate {
            x: (if c.x < self.x_min {
                self.x_min
            } else if c.x > self.x_max {
                self.x_max
            } else {
                c.x as int
            }) as i32,
            y: (if c.y < self.y_min {
                self.y_min
            } else if c.y > self.y_max {
                self.y_max
            } else {
                c.y as int
            }) as i32,
        }
    }

    /// Whether the region is centered on the origin along both axes.
    pub open spec fn is_centered(self) -> bool {
        centered_axis(self.x_min, self.x_max) && centered_axis(self.y_min, self.y_max)
    }
}

/// The origin-centering parity rule for one axis: an odd point count puts
/// the origin in the middle (`max == -min`); an even count leans one step
/// toward the positive side (`max == -min + 1`).
pub open spec fn centered_axis(min: int, max: int) -> bool {
    max == -min || max == -min + 1
}

/// The western boundary of an origin-centered axis with `count` points;
/// a count of zero degenerates to the single point `0`.
pub open spec fn centered_min(count: int) -> int {
    if count % 2 == 0 && count > 0 {
        -(count / 2) + 1
    } else {
        -(count / 2)
    }
}

/// The eastern boundary of an origin-centered axis with `count` points.
pub open spec fn centered_max(count: int) -> int {
    count / 2
}

/// The origin-centered region with the given point counts.
pub open spec fn centered_region(x_count: int, y_count: int) -> Region {
    Region {
        x_min: centered_min(x_count),
        x_max: centered_max(x_count),
        y_min: centered_min(y_count),
        y_max: centered_max(y_count),
    }
}

/// An origin-centered axis with a non-negative count indeed satisfies the
/// parity rule, holds that many points (one for a count of zero), and
/// both bounds fit an `i32` whenever the count does.
pub proof fn lemma_centered_axis_counts(count: int)
    requires
        0 <= count <= i32::MAX,
    ensures
        centered_axis(centered_min(count), centered_max(count)),
        centered_min(count) <= 0 <= centered_max(count),
        count > 0 ==> centered_max(count) - centered_min(count) + 1 == count,
        count == 0 ==> centered_min(count) == 0 && centered_max(count) == 0,
        i32::MIN <= centered_min(count),
        centered_max(count) <= i32::MAX,
        2 * centered_max(count) <= count + 1,
{
    assert(count == 2 * (count / 2) + count % 2) by (nonlinear_arith);
    assert(0 <= count % 2 < 2) by (nonlinear_arith);
    assert(count >= 0 ==> count / 2 >= 0) by (nonlinear_arith);
    assert(count / 2 <= count) by (nonlinear_arith)
        requires
            count >= 0,
    ;
}

/// Conversely, the parity rule pins the boundaries down: a well-formed
/// centered axis has exactly the boundaries that its count derives.
pub proof fn lemma_centered_axis_unique(min: int, max: int)
    requires
        min <= max,
        centered_axis(min, max),
    ensures
        min == centered_min(max - min + 1),
        max == centered_max(max - min + 1),
{
    let count = max - min + 1;
    if max == -min {
        assert(count == 2 * max + 1);
        assert(count / 2 == max) by (nonlinear_arith)
            requires
                count == 2 * max + 1 && max >= 0,
        ;
        assert(count % 2 == 1) by (nonlinear_arith)
            requires
                count == 2 * max + 1 && max >= 0,
        ;
    } else {
        assert(count == 2 * max);
        assert(count / 2 == max) by (nonlinear_arith)
            requires
                count == 2 * max && max >= 0,
        ;
        assert(count % 2 == 0) by (nonlinear_arith)
            requires
                count == 2 * max && max >= 0,
        ;
    }
}

/// Each axis count is at most the area of a well-formed region.
pub proof fn lemma_counts_within_area(r: Region)
    requires
        r.wf(),
    ensures
        r.x_count() <= r.area(),
        r.y_count() <= r.area(),
{
    assert(r.x_count() <= r.x_count() * r.y_count() && r.y_count() <= r.x_count() * r.y_count())
        by (nonlinear_arith)
        requires
            r.x_count() >= 1 && r.y_count() >= 1,
    ;
}

/// Division and remainder of an index inside the first row of a
/// row-major layout.
pub proof fn lemma_index_small(xc: int, i: int)
    requires
        xc > 0,
        0 <= i < xc,
    ensures
        i / xc == 0,
        i % xc == i,
{
    lemma_fundamental_div_mod_converse(i, xc, 0, i);
}

/// Removing one leading row width from an index lowers its row by one
/// and keeps its column.
pub proof fn lemma_index_row_split(xc: int, i: int)
    requires
        xc > 0,
        i >= xc,
    ensures
        i / xc == (i - xc) / xc + 1,
        i % xc == (i - xc) % xc,
{
    let q = (i - xc) / xc;
    let u = (i - xc) % xc;
    assert(i - xc == q * xc + u && 0 <= u < xc) by (nonlinear_arith)
        requires
            xc > 0 && q == (i - xc) / xc && u == (i - xc) % xc,
    ;
    assert(i == (q + 1) * xc + u) by (nonlinear_arith)
        requires
            i - xc == q * xc + u,
    ;
    lemma_fundamental_div_mod_converse(i, xc, q + 1, u);
}

/// An index in the row past a full rectangle lies in row `yc` at the
/// column it exceeds the rectangle by.
pub proof fn lemma_index_last_row(xc: int, yc: int, i: int)
    requires
        xc > 0,
        yc >= 0,
        yc * xc <= i < yc * xc + xc,
    ensures
        i / xc == yc,
        i % xc == i - yc * xc,
{
    lemma_fundamental_div_mod_converse(i, xc, yc, i - yc * xc);
}

/// A contained coordinate maps to an index inside the storage range, and
/// mapping that index back recovers the coordinate.
pub proof fn lemma_index_of_coord(r: Region, c: Coordinate)
    requires
        r.wf(),
        r.contains(c),
    ensures
        0 <= r.index_of(c) < r.area(),
        r.coord_at(r.index_of(c)) == c,
{
    let xc = r.x_count();
    let mx = c.x - r.x_min;
    let my = r.y_max - c.y;
    let idx = my * xc + mx;
    assert(0 <= mx < xc);
    assert(0 <= my < r.y_count());
    assert(idx < r.area() && 0 <= idx) by (nonlinear_arith)
        requires
            idx == my * xc + mx && 0 <= mx < xc && 0 <= my < r.y_count() && r.area() == xc
                * r.y_count(),
    ;
    lemma_fundamental_div_mod_converse(idx, xc, my, mx);
}

/// An index inside the storage range maps to a contained coordinate, and
/// mapping that coordinate back recovers the index.
pub proof fn lemma_coord_at_index(r: Region, index: int)
    requires
        r.wf(),
        0 <= index < r.area(),
    ensures
        r.contains(r.coord_at(index)),
        r.index_of(r.coord_at(index)) == index,
{
    let xc = r.x_count();
    let mx = index % xc;
    let my = index / xc;
    assert(0 <= mx < xc && index == my * xc + mx) by (nonlinear_arith)
        requires
            xc > 0 && mx == index % xc && my == index / xc,
    ;
    assert(0 <= my < r.y_count()) by (nonlinear_arith)
        requires
            xc > 0 && 0 <= index < xc * r.y_count() && mx == index % xc && my == index / xc && index
                == my * xc + mx && 0 <= mx < xc,
    ;
}

/// Distinct contained coordinates map to distinct indices.
pub proof fn lemma_index_of_injective(r: Region, c1: Coordinate, c2: Coordinate)
    requires
        r.wf(),
        r.contains(c1),
        r.contains(c2),
        c1 != c2,
    ensures
        r.index_of(c1) != r.index_of(c2),
{
    lemma_index_of_coord(r, c1);
    lemma_index_of_coord(r, c2);
}

/// Ordering of row-major indices: a coordinate strictly north of another,
/// or on the same row and strictly west of it, has the smaller index.
pub proof fn lemma_index_of_order(r: Region, c1: Coordinate, c2: Coordinate)
    requires
        r.wf(),
        r.contains(c1),
        r.contains(c2),
    ensures
        r.index_of(c1) < r.index_of(c2) <==> (c1.y > c2.y || (c1.y == c2.y && c1.x < c2.x)),
{
    let xc = r.x_count();
    let mx1 = c1.x - r.x_min;
    let my1 = r.y_max - c1.y;
    let mx2 = c2.x - r.x_min;
    let my2 = r.y_max - c2.y;
    assert((my1 * xc + mx1 < my2 * xc + mx2) <==> (my1 < my2 || (my1 == my2 && mx1 < mx2)))
        by (nonlinear_arith)
        requires
            0 <= mx1 < xc && 0 <= mx2 < xc,
    ;
}

} // verus!
