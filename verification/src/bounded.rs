use vstd::prelude::*;

use crate::coordinate::{move_in_range, moved_point, Coordinate};
use crate::direction::{unit_dx, unit_dy, AbsoluteDirection};
use crate::out_of_bounds_error::OutOfBoundsError;
use crate::positioned::Positioned;
use crate::region::{lemma_counts_within_area, lemma_index_of_coord, Region};

verus! {

/// The number of in-bounds coordinates strictly beyond `c` in direction
/// `d`, stepping by one and stopping at the first coordinate that leaves
/// the region.
pub open spec fn ray_len(reg: Region, c: Coordinate, d: AbsoluteDirection) -> int {
    if reg.contains(moved_point(c, d, 1)) {
        match d {
            AbsoluteDirection::North => reg.y_max - c.y,
            AbsoluteDirection::South => c.y - reg.y_min,
            AbsoluteDirection::East => reg.x_max - c.x,
            AbsoluteDirection::West => c.x - reg.x_min,
        }
    } else {
        0
    }
}

/// The predicate holding of the coordinates a region contains.
pub open spec fn in_region_pred(reg: Region) -> spec_fn(Coordinate) -> bool {
    |p: Coordinate| reg.contains(p)
}

/// A rectangular extent: four scalar boundaries and the vocabulary
/// derived from them — corners, counts, containment, the row-major
/// coordinate-index mapping, rays and neighbor queries.
///
/// Implementors provide the four boundary queries; every derived
/// operation is implemented here once, against the `region()` model.
pub trait Bounded {
    /// The rectangular extent, as seen by specifications.
    spec fn region(&self) -> Region;

    /// The western boundary.
    fn x_min_boundary(&self) -> (r: i32)
        requires
            self.region().wf(),
        ensures
            r == self.region().x_min,
    ;

    /// The eastern boundary.
    fn x_max_boundary(&self) -> (r: i32)
        requires
            self.region().wf(),
        ensures
            r == self.region().x_max,
    ;

    /// The southern boundary.
    fn y_min_boundary(&self) -> (r: i32)
        requires
            self.region().wf(),
        ensures
            r == self.region().y_min,
    ;

    /// The northern boundary.
    fn y_max_boundary(&self) -> (r: i32)
        requires
            self.region().wf(),
        ensures
            r == self.region().y_max,
    ;

    /// The corner with the greatest x and the least y.
    fn southeast_corner(&self) -> (r: Coordinate)
        requires
            self.region().wf(),
        ensures
            r.x == self.region().x_max,
            r.y == self.region().y_min,
    {
        Coordinate { x: self.x_max_boundary(), y: self.y_min_boundary() }
    }

    /// The corner with the least x and the least y.
    fn southwest_corner(&self) -> (r: Coordinate)
        requires
            self.region().wf(),
        ensures
            r.x == self.region().x_min,
            r.y == self.region().y_min,
    {
        Coordinate { x: self.x_min_boundary(), y: self.y_min_boundary() }
    }

    /// The corner with the least x and the greatest y.
    fn northwest_corner(&self) -> (r: Coordinate)
        requires
            self.region().wf(),
        ensures
            r.x == self.region().x_min,
            r.y == self.region().y_max,
    {
        Coordinate { x: self.x_min_boundary(), y: self.y_max_boundary() }
    }

    /// The corner with the greatest x and the greatest y.
    fn northeast_corner(&self) -> (r: Coordinate)
        requires
            self.region().wf(),
        ensures
            r.x == self.region().x_max,
            r.y == self.region().y_max,
    {
        Coordinate { x: self.x_max_boundary(), y: self.y_max_boundary() }
    }

    /// The number of integer points along the x-axis, bounds inclusive.
    fn x_count(&self) -> (r: usize)
        requires
            self.region().wf(),
            self.region().x_count() <= usize::MAX,
        ensures
            r == self.region().x_count(),
    {
        let diff = self.x_max_boundary() as i64 - self.x_min_boundary() as i64;
        (diff as usize) + 1
    }

    /// The number of integer points along the y-axis, bounds inclusive.
    fn y_count(&self) -> (r: usize)
        requires
            self.region().wf(),
            self.region().y_count() <= usize::MAX,
        ensures
            r == self.region().y_count(),
    {
        let diff = self.y_max_boundary() as i64 - self.y_min_boundary() as i64;
        (diff as usize) + 1
    }

    /// The distance between the extreme points of the x-axis: one less
    /// than the count.
    fn x_geometric_len(&self) -> (r: usize)
        requires
            self.region().wf(),
            self.region().x_count() <= usize::MAX,
        ensures
            r == self.region().x_max - self.region().x_min,
    {
        let diff = self.x_max_boundary() as i64 - self.x_min_boundary() as i64;
        diff as usize
    }

    /// The distance between the extreme points of the y-axis: one less
    /// than the count.
    fn y_geometric_len(&self) -> (r: usize)
        requires
            self.region().wf(),
            self.region().y_count() <= usize::MAX,
        ensures
            r == self.region().y_max - self.region().y_min,
    {
        let diff = self.y_max_boundary() as i64 - self.y_min_boundary() as i64;
        diff as usize
    }

    /// Whether a coordinate lies within the extent, borders inclusive.
    fn is_within_bounds(&self, coordinate: &Coordinate) -> (r: bool)
        requires
            self.region().wf(),
        ensures
            r == self.region().contains(*coordinate),
    {
        self.x_min_boundary() <= coordinate.x && self.x_max_boundary() >= coordinate.x
            && self.y_min_boundary() <= coordinate.y && self.y_max_boundary() >= coordinate.y
    }

    /// Whether a contained coordinate lies on one of the four boundary
    /// lines; callers must have established containment.
    fn other_is_on_border(&self, coordinate: &Coordinate) -> (r: bool)
        requires
            self.region().wf(),
            self.region().contains(*coordinate),
        ensures
            r == self.region().on_border(*coordinate),
    {
        coordinate.x == self.x_min_boundary() || coordinate.x == self.x_max_boundary()
            || coordinate.y == self.y_max_boundary() || coordinate.y == self.y_min_boundary()
    }

    /// The ordered ray of in-bounds coordinates strictly beyond
    /// `coordinate` in `direction`, stepping by one and ending just
    /// before the first coordinate that leaves the extent.
    fn coordinates_in_direction_from(
        &self,
        coordinate: &Coordinate,
        direction: AbsoluteDirection,
    ) -> (r: Vec<Coordinate>)
        requires
            self.region().wf(),
            move_in_range(*coordinate, direction, 1),
        ensures
            r@.len() == ray_len(self.region(), *coordinate, direction),
            forall|i: int|
                0 <= i < r@.len() ==> r@[i] == moved_point(*coordinate, direction, i + 1),
    {
        let mut result: Vec<Coordinate> = Vec::new();
        let first = coordinate.coordinate_in_direction(direction, 1);
        if !self.is_within_bounds(&first) {
            return result;
        }
        let n: usize = match direction {
            AbsoluteDirection::North => (self.y_max_boundary() as i64 - coordinate.y as i64)
                as usize,
            AbsoluteDirection::South => (coordinate.y as i64 - self.y_min_boundary() as i64)
                as usize,
            AbsoluteDirection::East => (self.x_max_boundary() as i64 - coordinate.x as i64)
                as usize,
            AbsoluteDirection::West => (coordinate.x as i64 - self.x_min_boundary() as i64)
                as usize,
        };
        let mut cur: Coordinate = *coordinate;
        let mut k: usize = 0;
        proof {
            assert(unit_dx(direction) * 0 == 0);
            assert(unit_dy(direction) * 0 == 0);
            assert(cur == moved_point(*coordinate, direction, 0));
        }
        while k < n
            invariant
                self.region().wf(),
                n == ray_len(self.region(), *coordinate, direction),
                self.region().contains(moved_point(*coordinate, direction, 1)),
                k <= n,
                cur == moved_point(*coordinate, direction, k as int),
                k > 0 ==> self.region().contains(cur),
                move_in_range(*coordinate, direction, 1),
                result@.len() == k,
                forall|i: int|
                    0 <= i < k ==> result@[i] == moved_point(*coordinate, direction, i + 1),
            decreases n - k,
        {
            proof {
                assert(unit_dx(direction) * (k + 1) == unit_dx(direction) * k + unit_dx(direction)
                    && unit_dy(direction) * (k + 1) == unit_dy(direction) * k + unit_dy(direction)
                    && (k == 0 ==> unit_dx(direction) * k == 0 && unit_dy(direction) * k == 0)
                    && unit_dx(direction) * 1 == unit_dx(direction) && unit_dy(direction) * 1
                    == unit_dy(direction)) by (nonlinear_arith);
            }
            cur = cur.coordinate_in_direction(direction, 1);
            result.push(cur);
            k = k + 1;
        }
        result
    }

    /// The row-major index of a coordinate, counted from the northwest
    /// corner, west to east within a row, rows north to south; an
    /// out-of-bounds coordinate is refused and returned in the error.
    fn coordinate_to_index(&self, coordinate: &Coordinate) -> (r: Result<usize, OutOfBoundsError>)
        requires
            self.region().wf(),
            self.region().area() <= usize::MAX,
        ensures
            self.region().contains(*coordinate) ==> (r matches Ok(i) && i
                == self.region().index_of(*coordinate)),
            !self.region().contains(*coordinate) ==> (r matches Err(e) && e.spec_position()
                == *coordinate),
    {
        proof {
            lemma_counts_within_area(self.region());
        }
        if !self.is_within_bounds(coordinate) {
            Err(OutOfBoundsError::new(*coordinate))
        } else {
            proof {
                lemma_index_of_coord(self.region(), *coordinate);
            }
            let m = self.to_matrix_like(coordinate);
            Ok(m[1] * self.x_count() + m[0])
        }
    }

    /// The coordinate at a row-major index, counted from zero at the
    /// northwest corner; an index at or beyond the area is refused.
    fn index_to_coordinate(&self, index: usize) -> (r: Result<Coordinate, OutOfBoundsError>)
        requires
            self.region().wf(),
            self.region().area() <= usize::MAX,
        ensures
            index < self.region().area() ==> (r matches Ok(c) && c == self.region().coord_at(
                index as int,
            )),
            index >= self.region().area() ==> r is Err,
    {
        proof {
            lemma_counts_within_area(self.region());
        }
        let x_count = self.x_count();
        let y_count = self.y_count();
        let y_matrix_like = index / x_count;
        let x_matrix_like = index % x_count;
        proof {
            assert(x_matrix_like < x_count) by (nonlinear_arith)
                requires
                    x_count > 0 && x_matrix_like == index as int % x_count as int,
            ;
            assert(index < self.region().area() ==> y_matrix_like < y_count) by (nonlinear_arith)
                requires
                    x_count > 0 && self.region().area() == x_count * y_count && y_matrix_like
                        == index as int / x_count as int,
            ;
            assert(index >= self.region().area() ==> y_matrix_like >= y_count) by (nonlinear_arith)
                requires
                    x_count > 0 && self.region().area() == x_count * y_count && y_matrix_like
                        == index as int / x_count as int,
            ;
        }
        if y_matrix_like >= y_count {
            let y32: i32 = if y_matrix_like >= i32::MAX as usize {
                i32::MIN
            } else {
                let y64 = self.y_max_boundary() as i64 - y_matrix_like as i64;
                if y64 < i32::MIN as i64 {
                    i32::MIN
                } else {
                    y64 as i32
                }
            };
            let x32: i32 = (self.x_min_boundary() as i64 + x_matrix_like as i64) as i32;
            Err(OutOfBoundsError::new(Coordinate { x: x32, y: y32 }))
        } else {
            self.to_grid_like([x_matrix_like, y_matrix_like])
        }
    }

    /// The distances of a contained coordinate from the west and the
    /// north edge, in that order: matrix-like indices with `[0, 0]` at
    /// the northwest corner.  Callers must have established containment.
    fn to_matrix_like(&self, coord: &Coordinate) -> (r: [usize; 2])
        requires
            self.region().wf(),
            self.region().contains(*coord),
        ensures
            r[0] == coord.x - self.region().x_min,
            r[1] == self.region().y_max - coord.y,
    {
        let mx = (coord.x as i64 - self.x_min_boundary() as i64) as usize;
        let my = (self.y_max_boundary() as i64 - coord.y as i64) as usize;
        [mx, my]
    }

    /// The inverse of `to_matrix_like`: the coordinate at the given
    /// west and north distances, which must fall inside the extent.
    fn to_grid_like(&self, distance: [usize; 2]) -> (r: Result<Coordinate, OutOfBoundsError>)
        requires
            self.region().wf(),
            distance[0] < self.region().x_count(),
            distance[1] < self.region().y_count(),
        ensures
            r matches Ok(c) && c.x == self.region().x_min + distance[0] && c.y
                == self.region().y_max - distance[1],
    {
        let x = (self.x_min_boundary() as i64 + distance[0] as i64) as i32;
        let y = (self.y_max_boundary() as i64 - distance[1] as i64) as i32;
        let coordinate = Coordinate { x, y };
        if self.is_within_bounds(&coordinate) {
            Ok(coordinate)
        } else {
            Err(OutOfBoundsError::new(coordinate))
        }
    }

    /// The adjacent coordinate in a direction, or `None` if that
    /// neighbor would leave the extent.
    fn neighbor_in_direction_from(&self, position: &Coordinate, direction: AbsoluteDirection) -> (r:
        Option<Coordinate>)
        requires
            self.region().wf(),
            move_in_range(*position, direction, 1),
        ensures
            self.region().contains(moved_point(*position, direction, 1)) ==> r == Some(
                moved_point(*position, direction, 1),
            ),
            !self.region().contains(moved_point(*position, direction, 1)) ==> r is None,
    {
        let potential_neighbor = position.coordinate_in_direction(direction, 1);
        if self.is_within_bounds(&potential_neighbor) {
            Some(potential_neighbor)
        } else {
            None
        }
    }

    /// The surrounding points of a coordinate, diagonals included,
    /// filtered to those within the extent; on a border point the result
    /// is strictly smaller, and for a point outside it may be empty.
    fn bounded_neighbors_to(&self, coordinate: &Coordinate) -> (r: Vec<Coordinate>)
        requires
            self.region().wf(),
            i32::MIN < coordinate.x < i32::MAX,
            i32::MIN < coordinate.y < i32::MAX,
        ensures
            r@ == crate::positioned::euclid_neighbor_seq(*coordinate).filter(
                in_region_pred(self.region()),
            ),
    {
        let candidates = coordinate.euclid_neighbors();
        let ghost all = crate::positioned::euclid_neighbor_seq(*coordinate);
        let ghost pred = in_region_pred(self.region());
        let mut result: Vec<Coordinate> = Vec::new();
        let mut i: usize = 0;
        proof {
            reveal(Seq::filter);
            assert(all.take(0) =~= Seq::<Coordinate>::empty());
        }
        while i < candidates.len()
            invariant
                self.region().wf(),
                candidates@ == all,
                all.len() == 8,
                i <= 8,
                pred == in_region_pred(self.region()),
                result@ == all.take(i as int).filter(pred),
            decreases candidates@.len() - i,
        {
            proof {
                reveal(Seq::filter);
                assert(all.take(i + 1).drop_last() =~= all.take(i as int));
                assert(all.take(i + 1).last() == all[i as int]);
            }
            let c = candidates[i];
            if self.is_within_bounds(&c) {
                result.push(c);
            }
            i = i + 1;
        }
        proof {
            assert(all.take(8) =~= all);
        }
        result
    }
}

/// A rectangular extent described purely by its point counts, always
/// centered on the origin.
pub trait OriginBounded {
    /// What must hold of the value for its counts to be readable.
    spec fn origin_wf(&self) -> bool;

    /// The number of points along the x-axis, as seen by specifications.
    spec fn spec_x_count(&self) -> int;

    /// The number of points along the y-axis, as seen by specifications.
    spec fn spec_y_count(&self) -> int;

    /// The number of points along the x-axis.
    fn x_count(&self) -> (r: usize)
        requires
            self.origin_wf(),
            0 < self.spec_x_count() <= usize::MAX,
        ensures
            r == self.spec_x_count(),
    ;

    /// The number of points along the y-axis.
    fn y_count(&self) -> (r: usize)
        requires
            self.origin_wf(),
            0 < self.spec_y_count() <= usize::MAX,
        ensures
            r == self.spec_y_count(),
    ;
}

/// A rectangular extent that exposes its four stored boundaries
/// directly, with no origin-centering promise.
pub trait MaybeOriginBounded: Bounded {
    /// The western boundary.
    fn x_min(&self) -> (r: i32)
        requires
            self.region().wf(),
        ensures
            r == self.region().x_min,
    {
        self.x_min_boundary()
    }

    /// The eastern boundary.
    fn x_max(&self) -> (r: i32)
        requires
            self.region().wf(),
        ensures
            r == self.region().x_max,
    {
        self.x_max_boundary()
    }

    /// The southern boundary.
    fn y_min(&self) -> (r: i32)
        requires
            self.region().wf(),
        ensures
            r == self.region().y_min,
    {
        self.y_min_boundary()
    }

    /// The northern boundary.
    fn y_max(&self) -> (r: i32)
        requires
            self.region().wf(),
        ensures
            r == self.region().y_max,
    {
        self.y_max_boundary()
    }
}

} // verus!
