use vstd::prelude::*;

use crate::bounded::Bounded;
use crate::bounded_moving_object::BoundedMovingObject;
use crate::coordinate::Coordinate;
use crate::direction::AbsoluteDirection;
use crate::grid::generic_grid::Grid;
use crate::positioned::Positioned;
use crate::region::lemma_index_of_coord;

verus! {

/// A restartable walk over a grid's cells in row-major order, driven by
/// a bounded cursor that starts at the northwest corner, steps East,
/// wraps to the next row's west edge at the east edge, and yields the
/// southeast corner exactly once.
pub struct GridIter<'a, T> {
    current: BoundedMovingObject,
    grid: &'a Grid<T>,
    visited_last: bool,
}

impl<'a, T> GridIter<'a, T> {
    /// The grid being walked, as seen by specifications.
    pub closed spec fn spec_grid(self) -> Grid<T> {
        *self.grid
    }

    /// The structural invariant: the cursor replicates the grid's
    /// rectangle and stands on the next cell to yield.
    pub closed spec fn wf(self) -> bool {
        &&& self.grid.wf()
        &&& self.current.wf()
        &&& self.current.region() == self.grid.region()
        &&& self.grid.region().contains(self.current.spec_position())
        &&& (self.visited_last ==> self.current.spec_position() == (Coordinate {
            x: self.grid.region().x_max as i32,
            y: self.grid.region().y_min as i32,
        }))
    }

    /// How many cells the walk has yielded so far.
    pub closed spec fn yielded(self) -> int {
        self.grid.region().index_of(self.current.spec_position()) + if self.visited_last {
            1int
        } else {
            0int
        }
    }

    /// Start a walk at the northwest corner of a grid.
    pub fn new(grid: &'a Grid<T>) -> (r: Self)
        requires
            grid.wf(),
        ensures
            r.wf(),
            r.spec_grid() == *grid,
            r.yielded() == 0,
    {
        proof {
            grid.lemma_wf();
        }
        let bounds = grid.bounds();
        let mut current = BoundedMovingObject::from_bounded(&bounds);
        current.set_current_x_to_x_min();
        current.set_current_y_to_y_max();
        let r = Self { current, grid, visited_last: false };
        proof {
            assert((grid.region().y_max - grid.region().y_max) * grid.region().x_count() == 0)
                by (nonlinear_arith);
        }
        r
    }

    /// Yield the next cell in row-major order: its coordinate and a
    /// reference to its occupant, if any; `None` once every cell has
    /// been yielded.
    pub fn next(&mut self) -> (r: Option<(Coordinate, Option<&'a T>)>)
        requires
            old(self).wf(),
        ensures
            final(self).wf(),
            final(self).spec_grid() == old(self).spec_grid(),
            old(self).yielded() < old(self).spec_grid().region().area() ==> ({
                let g = old(self).spec_grid();
                let c = g.region().coord_at(old(self).yielded());
                &&& (r matches Some(p) && p.0 == c && (p.1 is Some <==> g.cell(c) is Some) && (
                p.1 matches Some(v) ==> g.cell(c) == Some(*v)))
                &&& final(self).yielded() == old(self).yielded() + 1
            }),
            old(self).yielded() >= old(self).spec_grid().region().area() ==> r is None
                && final(self).yielded() == old(self).yielded(),
    {
        proof {
            self.grid.lemma_wf();
            self.grid.lemma_room();
            self.current.lemma_wf();
            lemma_index_of_coord(self.grid.region(), self.current.spec_position());
        }
        let ghost reg = self.grid.region();
        let ghost xc = reg.x_count();
        proof {
            assert(reg.index_of(Coordinate { x: reg.x_max as i32, y: reg.y_min as i32 })
                == reg.area() - 1) by (nonlinear_arith)
                requires
                    reg.wf() && reg.index_of(
                        Coordinate { x: reg.x_max as i32, y: reg.y_min as i32 },
                    ) == (reg.y_max - reg.y_min) * reg.x_count() + (reg.x_max - reg.x_min)
                        && reg.area() == reg.x_count() * reg.y_count() && reg.x_count()
                        == reg.x_max - reg.x_min + 1 && reg.y_count() == reg.y_max - reg.y_min + 1,
            ;
        }
        let se = self.current.southeast_corner();
        let pos = *self.current.position();
        if se == pos {
            if self.visited_last {
                return None;
            }
            self.visited_last = true;
        }
        let element = self.grid.element_unchecked(&pos);
        if self.current.move_in_absolute_direction(AbsoluteDirection::East, 1) {
        } else if self.current.move_in_absolute_direction(AbsoluteDirection::South, 1) {
            self.current.set_current_x_to_x_min();
            proof {
                lemma_index_of_coord(reg, self.current.spec_position());
                assert((reg.y_max - (pos.y - 1)) * xc == (reg.y_max - pos.y) * xc + xc)
                    by (nonlinear_arith);
            }
        }
        proof {
            lemma_index_of_coord(reg, self.current.spec_position());
        }
        Some((pos, element))
    }
}

impl<T> Grid<T> {
    /// A restartable walk over the grid's cells, in the same row-major
    /// order as the storage.
    pub fn iter_new(&self) -> (r: GridIter<T>)
        requires
            self.wf(),
        ensures
            r.wf(),
            r.spec_grid() == *self,
            r.yielded() == 0,
    {
        GridIter::new(self)
    }
}

} // verus!
