use vstd::prelude::*;

use crate::bounded::{Bounded, OriginBounded};
use crate::bounded_moving_object::BoundedMovingObject;
use crate::bounds::region_expanded;
use crate::coordinate::{move_in_range, moved_point, Coordinate};
use crate::direction::{spec_inverse, unit_dx, unit_dy, AbsoluteDirection};
use crate::grid::grid_coordinate::GridCoordinate;
use crate::grid::grid_error::GridError;
use crate::origin_centered_bounds::OriginCenteredBounds;
use crate::out_of_bounds_error::OutOfBoundsError;
use crate::positioned::Positioned;
use crate::region::{
    centered_region, lemma_coord_at_index, lemma_index_last_row, lemma_index_of_coord,
    lemma_index_of_order, lemma_index_row_split, lemma_index_small, Region,
};

verus! {

/// The number of occupied cells in a sequence of cell contents.
pub open spec fn count_some<T>(s: Seq<Option<T>>) -> int
    decreases s.len(),
{
    if s.len() == 0 {
        0
    } else {
        count_some(s.drop_last()) + if s.last() is Some {
            1int
        } else {
            0int
        }
    }
}

/// Replacing one cell content changes the occupied count by the
/// difference the replacement makes.
pub proof fn lemma_count_some_update<T>(s: Seq<Option<T>>, i: int, v: Option<T>)
    requires
        0 <= i < s.len(),
    ensures
        count_some(s.update(i, v)) == count_some(s) - (if s[i] is Some {
            1int
        } else {
            0int
        }) + (if v is Some {
            1int
        } else {
            0int
        }),
    decreases s.len(),
{
    let t = s.update(i, v);
    if i == s.len() - 1 {
        assert(t.drop_last() =~= s.drop_last());
    } else {
        assert(t.drop_last() =~= s.drop_last().update(i, v));
        lemma_count_some_update(s.drop_last(), i, v);
    }
}

/// The occupied count of a concatenation is the sum of the parts'.
pub proof fn lemma_count_some_concat<T>(a: Seq<Option<T>>, b: Seq<Option<T>>)
    ensures
        count_some(a + b) == count_some(a) + count_some(b),
    decreases b.len(),
{
    if b.len() == 0 {
        assert(a + b =~= a);
    } else {
        assert((a + b).drop_last() =~= a + b.drop_last());
        lemma_count_some_concat(a, b.drop_last());
    }
}

/// A sequence of empty cells has occupied count zero.
pub proof fn lemma_count_some_none<T>(s: Seq<Option<T>>)
    requires
        forall|i: int| 0 <= i < s.len() ==> s[i] is None,
    ensures
        count_some(s) == 0,
    decreases s.len(),
{
    if s.len() > 0 {
        lemma_count_some_none(s.drop_last());
    }
}

/// Whether a coordinate is on the row or beyond it on the side a
/// vertical relocation takes along: at or north of it for a northward
/// one, at or south of it for a southward one.
pub open spec fn row_match(c: Coordinate, row: int, above: bool) -> bool {
    if above {
        c.y >= row
    } else {
        c.y <= row
    }
}

/// The cell whose occupant lands on `p` under a one-step relocation in
/// direction `d`: the neighbor of `p` on the opposite side.
pub open spec fn shift_source(p: Coordinate, d: AbsoluteDirection) -> Coordinate {
    moved_point(p, spec_inverse(d), 1)
}

/// Whether every cell of the row at height `y` is empty.
pub open spec fn row_clear<T>(cells: Seq<Option<T>>, reg: Region, y: int) -> bool {
    forall|c: Coordinate|
        reg.contains(c) && c.y == y ==> #[trigger] cells[reg.index_of(c)] is None
}

/// Whether one relocation step in direction `d` of every occupied cell
/// matching one side of `row` is collision-free: each such element's
/// destination lies in bounds and is either empty or occupied by an
/// element that relocates as well.
pub open spec fn shift_safe<T>(
    cells: Seq<Option<T>>,
    reg: Region,
    row: int,
    above: bool,
    d: AbsoluteDirection,
) -> bool {
    forall|c: Coordinate|
        reg.contains(c) && row_match(c, row, above) && #[trigger] cells[reg.index_of(c)] is Some
            ==> reg.contains(moved_point(c, d, 1)) && (cells[reg.index_of(
            moved_point(c, d, 1),
        )] is Some ==> row_match(moved_point(c, d, 1), row, above))
}

/// The content of cell `i` after every occupant on the matching side of
/// `row` has stepped once in direction `d`: a cell whose source cell
/// held a relocating element receives it, a relocating element's cell
/// is otherwise vacated, and all other cells keep their content.
pub open spec fn shifted_cell<T>(
    cells: Seq<Option<T>>,
    reg: Region,
    row: int,
    above: bool,
    d: AbsoluteDirection,
    i: int,
) -> Option<T> {
    let p = reg.coord_at(i);
    let sp = shift_source(p, d);
    if reg.contains(sp) && row_match(sp, row, above) && cells[reg.index_of(sp)] is Some {
        cells[reg.index_of(sp)]
    } else if row_match(p, row, above) && cells[i] is Some {
        None
    } else {
        cells[i]
    }
}

/// The content of cell `i` of the grown grid after `expand_at_row`,
/// over the indices of the grown region: cells on the growing side of
/// the row take their occupant from the next cell toward the row, the
/// row itself is vacated, and cells on the other side keep theirs.
pub open spec fn expanded_cell<T>(
    cells: Seq<Option<T>>,
    reg: Region,
    row: int,
    north: bool,
    i: int,
) -> Option<T> {
    let rn = region_expanded(
        reg,
        if north {
            AbsoluteDirection::North
        } else {
            AbsoluteDirection::South
        },
    );
    let p = rn.coord_at(i);
    let sp = shift_source(
        p,
        if north {
            AbsoluteDirection::North
        } else {
            AbsoluteDirection::South
        },
    );
    if reg.contains(sp) && row_match(sp, row, north) {
        cells[reg.index_of(sp)]
    } else if row_match(p, row, north) {
        None
    } else if reg.contains(p) {
        cells[reg.index_of(p)]
    } else {
        None
    }
}

/// The occupied cells of a grid in row-major order, each as its
/// coordinate paired with its occupant.
pub open spec fn occupied_list<T>(cells: Seq<Option<T>>, reg: Region) -> Seq<(Coordinate, T)>
    decreases cells.len(),
{
    if cells.len() == 0 {
        Seq::empty()
    } else {
        let prefix = occupied_list(cells.drop_last(), reg);
        if cells.last() is Some {
            prefix.push((reg.coord_at(cells.len() - 1), cells.last()->0))
        } else {
            prefix
        }
    }
}

/// The number of occupied cells and the length of the occupied list
/// agree: the two occupancy measures of this module count alike.
pub proof fn lemma_occupied_list_count<T>(cells: Seq<Option<T>>, reg: Region)
    ensures
        occupied_list(cells, reg).len() == count_some(cells),
    decreases cells.len(),
{
    if cells.len() > 0 {
        lemma_occupied_list_count(cells.drop_last(), reg);
    }
}

/// Whether every cell of the column at `x` is empty.
pub open spec fn column_clear<T>(cells: Seq<Option<T>>, reg: Region, x: int) -> bool {
    forall|c: Coordinate|
        reg.contains(c) && c.x == x ==> #[trigger] cells[reg.index_of(c)] is None
}

/// The status mark of one cell: `#` for occupied, `.` for empty.
pub open spec fn status_char<T>(c: Option<T>) -> char {
    if c is Some {
        '#'
    } else {
        '.'
    }
}

/// The status marks of the row `my` rows below the top one.
pub open spec fn status_row<T>(cells: Seq<Option<T>>, reg: Region, my: int) -> Seq<char> {
    Seq::new(reg.x_count() as nat, |mx: int| status_char(cells[my * reg.x_count() + mx]))
}

/// The status marks of the topmost `my` rows, one line per row, with a
/// line break after every row but the grid's last.
pub open spec fn status_prefix<T>(cells: Seq<Option<T>>, reg: Region, my: int) -> Seq<char>
    decreases my,
{
    if my <= 0 {
        Seq::empty()
    } else {
        status_prefix(cells, reg, my - 1) + status_row(cells, reg, my - 1) + (if my - 1
            < reg.y_count() - 1 {
            seq!['\n']
        } else {
            Seq::empty()
        })
    }
}

/// The status marks of a whole grid.
pub open spec fn grid_statuses<T>(cells: Seq<Option<T>>, reg: Region) -> Seq<char> {
    status_prefix(cells, reg, reg.y_count())
}

/// The flat index, in a row-major layout `xc` columns wide, of the cell
/// that lands on index `j` of the transposed layout, `yc` columns wide.
pub open spec fn transpose_src(j: int, xc: int, yc: int) -> int {
    (j % yc) * xc + j / yc
}

/// The cell contents of a transposed grid: the matrix-like position
/// `(mx, my)` of the old layout moves to `(my, mx)` of the new one.
pub open spec fn transposed_cells<T>(cells: Seq<Option<T>>, xc: int, yc: int) -> Seq<Option<T>> {
    Seq::new((xc * yc) as nat, |j: int| cells[transpose_src(j, xc, yc)])
}

/// Transposing an index twice leads back to it.
pub proof fn lemma_transpose_src_inverse(j: int, xc: int, yc: int)
    requires
        xc > 0,
        yc > 0,
        0 <= j < xc * yc,
    ensures
        0 <= transpose_src(j, xc, yc) < xc * yc,
        transpose_src(transpose_src(j, xc, yc), yc, xc) == j,
{
    let r = j % yc;
    let q = j / yc;
    let s = r * xc + q;
    assert(0 <= r < yc && 0 <= q < xc && j == q * yc + r) by (nonlinear_arith)
        requires
            yc > 0 && 0 <= j < xc * yc && r == j % yc && q == j / yc,
    ;
    assert(0 <= s < xc * yc) by (nonlinear_arith)
        requires
            s == r * xc + q && 0 <= r < yc && 0 <= q < xc,
    ;
    vstd::arithmetic::div_mod::lemma_fundamental_div_mod_converse(s, xc, r, q);
    assert(s % xc == q && s / xc == r);
}

/// Transposing the cells twice yields the original contents, for any
/// occupancy pattern.
pub proof fn lemma_transpose_involutive<T>(cells: Seq<Option<T>>, xc: int, yc: int)
    requires
        xc > 0,
        yc > 0,
        cells.len() == xc * yc,
    ensures
        transposed_cells(transposed_cells(cells, xc, yc), yc, xc) == cells,
{
    let t = transposed_cells(cells, xc, yc);
    let tt = transposed_cells(t, yc, xc);
    assert(xc * yc == yc * xc) by (nonlinear_arith);
    assert forall|i: int| 0 <= i < cells.len() implies tt[i] == cells[i] by {
        lemma_transpose_src_inverse(i, yc, xc);
    }
    assert(tt =~= cells);
}

/// Transposing a grid twice yields a grid equal in shape and occupancy
/// to the original: the two hypotheses are what `transpose_new`
/// guarantees of each of the two transposes.
pub proof fn lemma_transpose_twice_restores<T>(g: Grid<T>, gt: Grid<T>, gtt: Grid<T>)
    requires
        g.wf(),
        gt.region() == centered_region(g.region().y_count(), g.region().x_count()),
        gt@ == transposed_cells(g@, g.region().x_count(), g.region().y_count()),
        gtt.region() == centered_region(gt.region().y_count(), gt.region().x_count()),
        gtt@ == transposed_cells(gt@, gt.region().x_count(), gt.region().y_count()),
    ensures
        gtt.region() == g.region(),
        gtt@ == g@,
{
    let reg = g.region();
    let xc = reg.x_count();
    let yc = reg.y_count();
    g.lemma_wf();
    crate::region::lemma_centered_axis_counts(yc);
    crate::region::lemma_centered_axis_counts(xc);
    assert(gt.region().x_count() == yc && gt.region().y_count() == xc);
    crate::region::lemma_centered_axis_unique(reg.x_min, reg.x_max);
    crate::region::lemma_centered_axis_unique(reg.y_min, reg.y_max);
    assert(gtt.region() == reg);
    lemma_transpose_involutive(g@, xc, yc);
}

/// Membership among the first `k` processed relocation sources: the
/// first `k` coordinates when the walk runs forward (North or West
/// moves), the last `k` when it runs backward (South or East moves).
spec fn processed(coords: Seq<Coordinate>, k: int, forward: bool, x: Coordinate) -> bool {
    if forward {
        exists|j: int| 0 <= j < k && coords[j] == x
    } else {
        exists|j: int| coords.len() - k <= j < coords.len() && coords[j] == x
    }
}

/// The content of cell `i` midway through a relocation, after the
/// sources in `processed(coords, k, forward, _)` have moved.
spec fn shift_state<T>(
    cells: Seq<Option<T>>,
    reg: Region,
    coords: Seq<Coordinate>,
    k: int,
    d: AbsoluteDirection,
    forward: bool,
    i: int,
) -> Option<T> {
    let p = reg.coord_at(i);
    let sp = shift_source(p, d);
    if processed(coords, k, forward, sp) {
        cells[reg.index_of(sp)]
    } else if processed(coords, k, forward, p) {
        None
    } else {
        cells[i]
    }
}

/// One relocation step and its source are inverse neighbors of a cell,
/// both distinct from it, and their storage indices sit on opposite
/// sides of its own: ahead of it for a North or West move, behind it
/// otherwise.
proof fn lemma_shift_step(reg: Region, p: Coordinate, d: AbsoluteDirection)
    requires
        reg.wf(),
        reg.x_min > i32::MIN,
        reg.x_max < i32::MAX,
        reg.y_min > i32::MIN,
        reg.y_max < i32::MAX,
        reg.contains(p),
    ensures
        shift_source(moved_point(p, d, 1), d) == p,
        moved_point(shift_source(p, d), d, 1) == p,
        shift_source(p, d) != p,
        moved_point(p, d, 1) != p,
        reg.contains(moved_point(p, d, 1)) ==> (reg.index_of(moved_point(p, d, 1))
            < reg.index_of(p) <==> (d is North || d is West)),
        reg.contains(shift_source(p, d)) ==> (reg.index_of(shift_source(p, d)) > reg.index_of(p)
            <==> (d is North || d is West)),
{
    assert(unit_dx(d) * 1 == unit_dx(d) && unit_dy(d) * 1 == unit_dy(d) && unit_dx(
        spec_inverse(d),
    ) * 1 == unit_dx(spec_inverse(d)) && unit_dy(spec_inverse(d)) * 1 == unit_dy(
        spec_inverse(d),
    ));
    if reg.contains(moved_point(p, d, 1)) {
        lemma_index_of_order(reg, moved_point(p, d, 1), p);
        lemma_index_of_order(reg, p, moved_point(p, d, 1));
    }
    if reg.contains(shift_source(p, d)) {
        lemma_index_of_order(reg, shift_source(p, d), p);
        lemma_index_of_order(reg, p, shift_source(p, d));
    }
}

/// The coordinates of all occupied matching cells, in row-major order,
/// exactly once each.
spec fn coords_valid<T>(
    coords: Seq<Coordinate>,
    cells: Seq<Option<T>>,
    reg: Region,
    row: int,
    above: bool,
) -> bool {
    &&& forall|j: int|
        0 <= j < coords.len() ==> reg.contains(#[trigger] coords[j]) && row_match(
            coords[j],
            row,
            above,
        ) && cells[reg.index_of(coords[j])] is Some
    &&& forall|j1: int, j2: int|
        0 <= j1 < j2 < coords.len() ==> reg.index_of(#[trigger] coords[j1]) < reg.index_of(
            #[trigger] coords[j2],
        )
    &&& forall|c: Coordinate|
        reg.contains(c) && row_match(c, row, above) && cells[#[trigger] reg.index_of(c)] is Some
            ==> coords.contains(c)
}


/// After a grid grows a fresh empty row at the top, relocating
/// everything on or above a row one step north is collision-free.
proof fn lemma_grown_north_safe<T>(
    cells0: Seq<Option<T>>,
    mid: Seq<Option<T>>,
    reg: Region,
    rn: Region,
    row: int,
)
    requires
        reg.wf(),
        rn == region_expanded(reg, AbsoluteDirection::North),
        rn.x_min > i32::MIN,
        rn.x_max < i32::MAX,
        rn.y_min > i32::MIN,
        rn.y_max < i32::MAX,
        cells0.len() == reg.area(),
        mid == Seq::new(reg.x_count() as nat, |i: int| None::<T>) + cells0,
    ensures
        shift_safe(mid, rn, row, true, AbsoluteDirection::North),
{
    let xc = reg.x_count();
    assert(unit_dx(AbsoluteDirection::North) * 1 == 0 && unit_dy(AbsoluteDirection::North) * 1
        == 1);
    assert forall|c: Coordinate|
        rn.contains(c) && c.y == rn.y_max implies #[trigger] mid[rn.index_of(c)] is None by {
        lemma_index_of_coord(rn, c);
        assert((rn.y_max - c.y) * rn.x_count() == 0) by (nonlinear_arith)
            requires
                c.y == rn.y_max,
        ;
        assert(mid[rn.index_of(c)] == mid[c.x - rn.x_min]);
    }
    assert forall|c2: Coordinate|
        rn.contains(c2) && row_match(c2, row, true) && #[trigger] mid[rn.index_of(c2)] is Some
        implies rn.contains(moved_point(c2, AbsoluteDirection::North, 1)) && (mid[rn.index_of(
        moved_point(c2, AbsoluteDirection::North, 1),
    )] is Some ==> row_match(moved_point(c2, AbsoluteDirection::North, 1), row, true)) by {
        lemma_index_of_coord(rn, c2);
        if c2.y == rn.y_max {
            assert(mid[rn.index_of(c2)] is None);
            assert(false);
        }
        assert(moved_point(c2, AbsoluteDirection::North, 1) == (Coordinate {
            x: c2.x,
            y: (c2.y + 1) as i32,
        }));
    }
}

/// After a grid grows a fresh empty row at the bottom, relocating
/// everything on or below a row one step south is collision-free.
proof fn lemma_grown_south_safe<T>(
    cells0: Seq<Option<T>>,
    mid: Seq<Option<T>>,
    reg: Region,
    rn: Region,
    row: int,
)
    requires
        reg.wf(),
        rn == region_expanded(reg, AbsoluteDirection::South),
        rn.x_min > i32::MIN,
        rn.x_max < i32::MAX,
        rn.y_min > i32::MIN,
        rn.y_max < i32::MAX,
        cells0.len() == reg.area(),
        mid == cells0 + Seq::new(reg.x_count() as nat, |i: int| None::<T>),
    ensures
        shift_safe(mid, rn, row, false, AbsoluteDirection::South),
{
    let xc = reg.x_count();
    assert(unit_dx(AbsoluteDirection::South) * 1 == 0 && unit_dy(AbsoluteDirection::South) * 1
        == -1);
    assert((reg.y_max - (reg.y_min - 1)) * xc == reg.y_count() * xc && reg.y_count() * xc == xc
        * reg.y_count() && reg.area() == xc * reg.y_count()) by (nonlinear_arith)
        requires
            reg.y_count() == reg.y_max - reg.y_min + 1 && reg.area() == reg.x_count()
                * reg.y_count() && xc == reg.x_count(),
    ;
    assert forall|c: Coordinate|
        rn.contains(c) && c.y == rn.y_min implies #[trigger] mid[rn.index_of(c)] is None by {
        lemma_index_of_coord(rn, c);
        assert(rn.index_of(c) == reg.area() + (c.x - rn.x_min));
    }
    assert forall|c2: Coordinate|
        rn.contains(c2) && row_match(c2, row, false) && #[trigger] mid[rn.index_of(c2)] is Some
        implies rn.contains(moved_point(c2, AbsoluteDirection::South, 1)) && (mid[rn.index_of(
        moved_point(c2, AbsoluteDirection::South, 1),
    )] is Some ==> row_match(moved_point(c2, AbsoluteDirection::South, 1), row, false)) by {
        lemma_index_of_coord(rn, c2);
        if c2.y == rn.y_min {
            assert(mid[rn.index_of(c2)] is None);
            assert(false);
        }
        assert(moved_point(c2, AbsoluteDirection::South, 1) == (Coordinate {
            x: c2.x,
            y: (c2.y - 1) as i32,
        }));
    }
}

/// The cell map of a northward grow-and-relocate, restated over the
/// original grid's cells.
proof fn lemma_grown_north_cells<T>(
    cells0: Seq<Option<T>>,
    mid: Seq<Option<T>>,
    final_cells: Seq<Option<T>>,
    reg: Region,
    rn: Region,
    row: int,
)
    requires
        reg.wf(),
        rn == region_expanded(reg, AbsoluteDirection::North),
        rn.x_min > i32::MIN,
        rn.x_max < i32::MAX,
        rn.y_min > i32::MIN,
        rn.y_max < i32::MAX,
        cells0.len() == reg.area(),
        mid == Seq::new(reg.x_count() as nat, |i: int| None::<T>) + cells0,
        final_cells.len() == mid.len(),
        mid.len() == rn.area(),
        forall|i: int|
            0 <= i < final_cells.len() ==> final_cells[i] == shifted_cell(
                mid,
                rn,
                row,
                true,
                AbsoluteDirection::North,
                i,
            ),
    ensures
        forall|i: int|
            0 <= i < final_cells.len() ==> final_cells[i] == expanded_cell(
                cells0,
                reg,
                row,
                true,
                i,
            ),
{
    let xc = reg.x_count();
    assert(unit_dx(AbsoluteDirection::South) * 1 == 0 && unit_dy(AbsoluteDirection::South) * 1
        == -1);
    assert forall|i: int| 0 <= i < final_cells.len() implies final_cells[i] == expanded_cell(
        cells0,
        reg,
        row,
        true,
        i,
    ) by {
        lemma_coord_at_index(rn, i);
        let p = rn.coord_at(i);
        let sp = shift_source(p, AbsoluteDirection::North);
        assert(sp == (Coordinate { x: p.x, y: (p.y - 1) as i32 }));
        assert(final_cells[i] == shifted_cell(mid, rn, row, true, AbsoluteDirection::North, i));
        if rn.contains(sp) && row_match(sp, row, true) {
            assert(reg.contains(sp));
            assert(row_match(p, row, true));
            lemma_index_of_coord(reg, sp);
            assert((rn.y_max - sp.y) * xc == (reg.y_max - sp.y) * xc + xc) by (nonlinear_arith)
                requires
                    rn.y_max == reg.y_max + 1,
            ;
            assert(rn.index_of(sp) == reg.index_of(sp) + xc);
            assert(mid[rn.index_of(sp)] == cells0[reg.index_of(sp)]);
            if reg.contains(p) {
                lemma_index_of_coord(reg, p);
                assert((rn.y_max - p.y) * xc == (reg.y_max - p.y) * xc + xc) by (nonlinear_arith)
                    requires
                        rn.y_max == reg.y_max + 1,
                ;
                assert(rn.index_of(p) == reg.index_of(p) + xc);
                assert(mid[i] == cells0[reg.index_of(p)]);
            } else {
                assert(p.y == rn.y_max);
                assert((rn.y_max - p.y) * rn.x_count() == 0) by (nonlinear_arith)
                    requires
                        p.y == rn.y_max,
                ;
                assert(mid[i] == mid[p.x - rn.x_min]);
                assert(mid[i] is None);
            }
        } else if row_match(p, row, true) {
            assert(!(reg.contains(sp) && row_match(sp, row, true)));
            if reg.contains(p) {
                lemma_index_of_coord(reg, p);
                assert((rn.y_max - p.y) * xc == (reg.y_max - p.y) * xc + xc) by (nonlinear_arith)
                    requires
                        rn.y_max == reg.y_max + 1,
                ;
                assert(rn.index_of(p) == reg.index_of(p) + xc);
                assert(mid[i] == cells0[reg.index_of(p)]);
            } else {
                assert(p.y == rn.y_max);
                assert((rn.y_max - p.y) * rn.x_count() == 0) by (nonlinear_arith)
                    requires
                        p.y == rn.y_max,
                ;
                assert(mid[i] == mid[p.x - rn.x_min]);
                assert(mid[i] is None);
            }
        } else {
            if reg.contains(p) {
                lemma_index_of_coord(reg, p);
                assert((rn.y_max - p.y) * xc == (reg.y_max - p.y) * xc + xc) by (nonlinear_arith)
                    requires
                        rn.y_max == reg.y_max + 1,
                ;
                assert(rn.index_of(p) == reg.index_of(p) + xc);
                assert(mid[i] == cells0[reg.index_of(p)]);
            } else {
                assert(p.y == rn.y_max);
                assert((rn.y_max - p.y) * rn.x_count() == 0) by (nonlinear_arith)
                    requires
                        p.y == rn.y_max,
                ;
                assert(mid[i] == mid[p.x - rn.x_min]);
                assert(mid[i] is None);
            }
        }
    }
}

/// The cell map of a southward grow-and-relocate, restated over the
/// original grid's cells.
proof fn lemma_grown_south_cells<T>(
    cells0: Seq<Option<T>>,
    mid: Seq<Option<T>>,
    final_cells: Seq<Option<T>>,
    reg: Region,
    rn: Region,
    row: int,
)
    requires
        reg.wf(),
        rn == region_expanded(reg, AbsoluteDirection::South),
        rn.x_min > i32::MIN,
        rn.x_max < i32::MAX,
        rn.y_min > i32::MIN,
        rn.y_max < i32::MAX,
        cells0.len() == reg.area(),
        mid == cells0 + Seq::new(reg.x_count() as nat, |i: int| None::<T>),
        final_cells.len() == mid.len(),
        mid.len() == rn.area(),
        forall|i: int|
            0 <= i < final_cells.len() ==> final_cells[i] == shifted_cell(
                mid,
                rn,
                row,
                false,
                AbsoluteDirection::South,
                i,
            ),
    ensures
        forall|i: int|
            0 <= i < final_cells.len() ==> final_cells[i] == expanded_cell(
                cells0,
                reg,
                row,
                false,
                i,
            ),
{
    let xc = reg.x_count();
    assert(unit_dx(AbsoluteDirection::North) * 1 == 0 && unit_dy(AbsoluteDirection::North) * 1
        == 1);
    assert((reg.y_max - (reg.y_min - 1)) * xc == reg.y_count() * xc && reg.y_count() * xc == xc
        * reg.y_count() && reg.area() == xc * reg.y_count()) by (nonlinear_arith)
        requires
            reg.y_count() == reg.y_max - reg.y_min + 1 && reg.area() == reg.x_count()
                * reg.y_count() && xc == reg.x_count(),
    ;
    assert forall|i: int| 0 <= i < final_cells.len() implies final_cells[i] == expanded_cell(
        cells0,
        reg,
        row,
        false,
        i,
    ) by {
        lemma_coord_at_index(rn, i);
        let p = rn.coord_at(i);
        let sp = shift_source(p, AbsoluteDirection::South);
        assert(sp == (Coordinate { x: p.x, y: (p.y + 1) as i32 }));
        assert(final_cells[i] == shifted_cell(mid, rn, row, false, AbsoluteDirection::South, i));
        if reg.contains(p) {
            lemma_index_of_coord(reg, p);
            assert(rn.index_of(p) == reg.index_of(p));
            assert(mid[i] == cells0[reg.index_of(p)]);
        } else {
            assert(p.y == rn.y_min);
            assert(rn.index_of(p) == reg.area() + (p.x - rn.x_min));
            assert(mid[i] is None);
        }
        if rn.contains(sp) && row_match(sp, row, false) {
            assert(reg.contains(sp));
            assert(row_match(p, row, false));
            lemma_index_of_coord(reg, sp);
            assert(rn.index_of(sp) == reg.index_of(sp));
            assert(mid[rn.index_of(sp)] == cells0[reg.index_of(sp)]);
        }
    }
}

/// A bounded two-dimensional grid that either holds an element of type
/// `T` or is empty at each of its points.
///
/// The cells live in one contiguous sequence in row-major order from the
/// northwest corner, and the extent is an origin-centered rectangle that
/// the grid keeps centered through every growth operation.
#[derive(Debug)]
pub struct Grid<T> {
    grid_data: Vec<GridCoordinate<T>>,
    bounds: OriginCenteredBounds,
}

impl<T> View for Grid<T> {
    type V = Seq<Option<T>>;

    closed spec fn view(&self) -> Seq<Option<T>> {
        self.grid_data@.map_values(|gc: GridCoordinate<T>| gc.content())
    }
}

impl<T> Grid<T> {
    /// The origin-centered rectangle describing the extent, as seen by
    /// specifications.
    pub closed spec fn spec_bounds(self) -> OriginCenteredBounds {
        self.bounds
    }

    /// The structural invariant: the rectangle is centered on the
    /// origin, its counts are machine representable, the storage holds
    /// exactly one cell per contained point, and every empty cell
    /// carries the coordinate of its own point.
    pub closed spec fn wf(self) -> bool {
        &&& self.bounds.inv()
        &&& self.region().x_count() <= i32::MAX
        &&& self.region().y_count() <= i32::MAX
        &&& self.region().area() <= usize::MAX
        &&& self.grid_data@.len() == self.region().area()
        &&& forall|i: int|
            0 <= i < self.grid_data@.len() ==> match #[trigger] self.grid_data@[i] {
                GridCoordinate::Empty(c) => c == self.region().coord_at(i),
                GridCoordinate::Object(_) => true,
            }
    }

    /// The content of the cell at a contained coordinate.
    pub open spec fn cell(self, c: Coordinate) -> Option<T> {
        self@[self.region().index_of(c)]
    }

    /// The invariant implies that the region model is well formed,
    /// centered, and sized to the storage.
    pub proof fn lemma_wf(self)
        requires
            self.wf(),
        ensures
            self.region().wf(),
            self.region().is_centered(),
            self@.len() == self.region().area(),
            self.region().x_count() <= i32::MAX,
            self.region().y_count() <= i32::MAX,
            self.region().area() <= usize::MAX,
    {
        self.bounds.lemma_inv_region();
    }

    /// Create a rectangular grid with every cell empty.  The counts are
    /// numbers of coordinates along each axis, not distances: a count of
    /// `3` on the x-axis holds the columns `-1`, `0` and `1`.  A count
    /// of zero degenerates to a single point on that axis.
    pub fn new(x_count: usize, y_count: usize) -> (r: Self)
        requires
            x_count <= i32::MAX,
            y_count <= i32::MAX,
            centered_region(x_count as int, y_count as int).area() <= usize::MAX,
        ensures
            r.wf(),
            r.region() == centered_region(x_count as int, y_count as int),
            r.region().is_centered(),
            x_count >= 1 ==> r.region().x_count() == x_count,
            y_count >= 1 ==> r.region().y_count() == y_count,
            x_count == 0 ==> r.region().x_count() == 1,
            y_count == 0 ==> r.region().y_count() == 1,
            r@.len() == r.region().area(),
            forall|i: int| 0 <= i < r@.len() ==> r@[i] is None,
    {
        let bounds = OriginCenteredBounds::new(x_count as u64, y_count as u64);
        proof {
            bounds.lemma_inv_region();
            crate::region::lemma_centered_axis_counts(x_count as int);
            crate::region::lemma_centered_axis_counts(y_count as int);
        }
        let ghost reg = bounds.region();
        proof {
            assert(reg.x_max < i32::MAX && reg.y_min > i32::MIN);
        }
        let x_min = bounds.x_min_boundary();
        let x_max = bounds.x_max_boundary();
        let y_min = bounds.y_min_boundary();
        let y_max = bounds.y_max_boundary();
        let mut grid_data: Vec<GridCoordinate<T>> = Vec::new();
        let mut y = y_max;
        while y >= y_min
            invariant
                reg == bounds.region(),
                reg.wf(),
                x_min == reg.x_min,
                x_max == reg.x_max,
                y_min == reg.y_min,
                y_max == reg.y_max,
                reg.area() <= usize::MAX,
                reg.x_max < i32::MAX,
                reg.y_min > i32::MIN,
                y_min - 1 <= y <= y_max,
                grid_data@.len() == (reg.y_max - y) * reg.x_count(),
                forall|i: int|
                    0 <= i < grid_data@.len() ==> grid_data@[i] == GridCoordinate::Empty::<T>(
                        reg.coord_at(i),
                    ),
            decreases y - y_min + 1,
        {
            let mut x = x_min;
            proof {
                assert((reg.y_max - y) * reg.x_count() >= 0 && (reg.y_max - y) * reg.x_count() + (
                reg.x_max - reg.x_min + 1) <= reg.area()) by (nonlinear_arith)
                    requires
                        reg.x_count() == reg.x_max - reg.x_min + 1 && reg.x_count() > 0
                            && reg.y_count() == reg.y_max - reg.y_min + 1 && reg.area()
                            == reg.x_count() * reg.y_count() && reg.y_min <= y <= reg.y_max,
                ;
            }
            while x <= x_max
                invariant
                    reg.wf(),
                    x_min == reg.x_min,
                    x_max == reg.x_max,
                    y_min == reg.y_min,
                    y_max == reg.y_max,
                    reg.area() <= usize::MAX,
                    reg.x_max < i32::MAX,
                    y_min <= y <= y_max,
                    x_min <= x <= x_max + 1,
                    (reg.y_max - y) * reg.x_count() + (reg.x_max - reg.x_min + 1) <= reg.area(),
                    grid_data@.len() == (reg.y_max - y) * reg.x_count() + (x - reg.x_min),
                    forall|i: int|
                        0 <= i < grid_data@.len() ==> grid_data@[i] == GridCoordinate::Empty::<T>(
                            reg.coord_at(i),
                        ),
                decreases x_max + 1 - x,
            {
                proof {
                    lemma_index_of_coord(reg, Coordinate { x, y });
                }
                grid_data.push(GridCoordinate::Empty(Coordinate { x, y }));
                x = x + 1;
            }
            proof {
                assert((reg.y_max - (y - 1)) * reg.x_count() == (reg.y_max - y) * reg.x_count()
                    + reg.x_count()) by (nonlinear_arith);
            }
            y = y - 1;
        }
        proof {
            assert((reg.y_max - (reg.y_min - 1)) * reg.x_count() == reg.x_count() * reg.y_count())
                by (nonlinear_arith)
                requires
                    reg.y_count() == reg.y_max - reg.y_min + 1,
            ;
        }
        let result = Self { grid_data, bounds };
        proof {
            assert forall|i: int| 0 <= i < result@.len() implies result@[i] is None by {
                assert(result.grid_data@[i] == GridCoordinate::Empty::<T>(reg.coord_at(i)));
            }
        }
        result
    }

    /// Create a new empty grid with the same counts as another
    /// origin-bounded value.
    pub fn from_bounds<B: OriginBounded>(other: &B) -> (r: Self)
        requires
            other.origin_wf(),
            0 < other.spec_x_count() <= i32::MAX,
            0 < other.spec_y_count() <= i32::MAX,
            centered_region(other.spec_x_count(), other.spec_y_count()).area() <= usize::MAX,
        ensures
            r.wf(),
            r.region() == centered_region(other.spec_x_count(), other.spec_y_count()),
            forall|i: int| 0 <= i < r@.len() ==> r@[i] is None,
    {
        Self::new(other.x_count(), other.y_count())
    }

    /// The origin-centered rectangle describing the extent.
    pub fn bounds(&self) -> (r: OriginCenteredBounds)
        ensures
            r == self.spec_bounds(),
            self.wf() ==> r.inv() && r.region() == self.region(),
    {
        self.bounds
    }

    /// The count along the x-dimension.
    pub fn x_count(&self) -> (r: usize)
        requires
            self.wf(),
        ensures
            r == self.region().x_count(),
    {
        self.bounds.x_count()
    }

    /// The count along the y-dimension.
    pub fn y_count(&self) -> (r: usize)
        requires
            self.wf(),
        ensures
            r == self.region().y_count(),
    {
        self.bounds.y_count()
    }

    /// A reference to the element at a contained coordinate, or `None`
    /// for an empty cell.  Callers must have established containment;
    /// see `element` for the checked form.
    pub fn element_unchecked<C: Positioned>(&self, coordinate: &C) -> (r: Option<&T>)
        requires
            self.wf(),
            self.region().contains(coordinate.spec_position()),
        ensures
            r is Some <==> self.cell(coordinate.spec_position()) is Some,
            r matches Some(v) ==> self.cell(coordinate.spec_position()) == Some(*v),
    {
        proof {
            self.lemma_wf();
            lemma_index_of_coord(self.region(), coordinate.spec_position());
        }
        let index = self.coordinate_to_index(coordinate.position()).unwrap();
        let val = &self.grid_data[index];
        match val {
            GridCoordinate::Object(element) => Some(element),
            GridCoordinate::Empty(_) => None,
        }
    }

    /// A reference to the element at a coordinate: an out-of-bounds
    /// coordinate or an empty cell is refused with the matching error.
    pub fn element<C: Positioned>(&self, coordinate: &C) -> (r: Result<&T, GridError>)
        requires
            self.wf(),
        ensures
            !self.region().contains(coordinate.spec_position()) ==> (r matches Err(e)
                && e matches GridError::OutOfBoundsError(o) && o.spec_position()
                == coordinate.spec_position()),
            self.region().contains(coordinate.spec_position()) && self.cell(
                coordinate.spec_position(),
            ) is None ==> (r matches Err(e) && e matches GridError::UnoccupiedError(c) && c
                == coordinate.spec_position()),
            self.region().contains(coordinate.spec_position()) && self.cell(
                coordinate.spec_position(),
            ) is Some ==> (r matches Ok(v) && self.cell(coordinate.spec_position()) == Some(*v)),
    {
        proof {
            self.lemma_wf();
        }
        if !self.is_within_bounds(coordinate.position()) {
            Err(GridError::OutOfBoundsError(OutOfBoundsError::new(*coordinate.position())))
        } else {
            match self.element_unchecked(coordinate) {
                Some(element) => Ok(element),
                None => Err(GridError::UnoccupiedError(*coordinate.position())),
            }
        }
    }

    /// A mutable reference to the element at a contained coordinate; an
    /// empty cell is refused.  Callers must have established
    /// containment, as with `element_unchecked`.
    pub fn get_mut_element<C: Positioned>(&mut self, coordinate: &C) -> (r: Result<
        &mut T,
        GridError,
    >)
        requires
            old(self).wf(),
            old(self).region().contains(coordinate.spec_position()),
        ensures
            final(self).wf(),
            final(self).region() == old(self).region(),
            old(self).cell(coordinate.spec_position()) is None ==> (r matches Err(e)
                && e matches GridError::UnoccupiedError(c) && c == coordinate.spec_position())
                && final(self)@ == old(self)@,
            old(self).cell(coordinate.spec_position()) is Some ==> (r matches Ok(m) && *m == old(
                self,
            ).cell(coordinate.spec_position())->0 && final(self)@ == old(self)@.update(
                old(self).region().index_of(coordinate.spec_position()),
                Some(*final(m)),
            )),
    {
        proof {
            self.lemma_wf();
            lemma_index_of_coord(self.region(), coordinate.spec_position());
        }
        let index = self.coordinate_to_index(coordinate.position()).unwrap();
        let position = *coordinate.position();
        let val = &mut self.grid_data[index];
        match val {
            GridCoordinate::Object(element) => Ok(element),
            GridCoordinate::Empty(_) => Err(GridError::UnoccupiedError(position)),
        }
    }

    /// Store an element at a coordinate, returning the previous
    /// occupant, if any: overwriting is allowed here and surfaces the
    /// old element to the caller.  An out-of-bounds coordinate is
    /// refused and leaves the grid unchanged.
    pub fn store_element<C: Positioned>(&mut self, coordinate: &C, element: T) -> (r: Result<
        Option<T>,
        GridError,
    >)
        requires
            old(self).wf(),
        ensures
            final(self).wf(),
            final(self).region() == old(self).region(),
            !old(self).region().contains(coordinate.spec_position()) ==> (r matches Err(e)
                && e matches GridError::OutOfBoundsError(o) && o.spec_position()
                == coordinate.spec_position()) && final(self)@ == old(self)@,
            old(self).region().contains(coordinate.spec_position()) ==> r == Ok::<
                Option<T>,
                GridError,
            >(old(self).cell(coordinate.spec_position())) && final(self)@ == old(self)@.update(
                old(self).region().index_of(coordinate.spec_position()),
                Some(element),
            ),
    {
        proof {
            self.lemma_wf();
        }
        let index = match self.coordinate_to_index(coordinate.position()) {
            Ok(i) => i,
            Err(e) => {
                return Err(GridError::OutOfBoundsError(e));
            },
        };
        proof {
            lemma_index_of_coord(self.region(), coordinate.spec_position());
        }
        let mut cell = GridCoordinate::Object(element);
        core::mem::swap(&mut self.grid_data[index], &mut cell);
        proof {
            assert(self@ =~= old(self)@.update(index as int, Some(element)));
        }
        match cell {
            GridCoordinate::Object(val) => Ok(Some(val)),
            GridCoordinate::Empty(_) => Ok(None),
        }
    }

    /// Remove and return the element at a coordinate, leaving an empty
    /// cell behind.  An out-of-bounds coordinate or an empty cell is
    /// refused and leaves the grid unchanged.
    pub fn remove_element<C: Positioned>(&mut self, coordinate: &C) -> (r: Result<T, GridError>)
        requires
            old(self).wf(),
        ensures
            final(self).wf(),
            final(self).region() == old(self).region(),
            !old(self).region().contains(coordinate.spec_position()) ==> (r matches Err(e)
                && e matches GridError::OutOfBoundsError(o) && o.spec_position()
                == coordinate.spec_position()) && final(self)@ == old(self)@,
            old(self).region().contains(coordinate.spec_position()) && old(self).cell(
                coordinate.spec_position(),
            ) is None ==> (r matches Err(e) && e matches GridError::UnoccupiedError(c) && c
                == coordinate.spec_position()) && final(self)@ == old(self)@,
            old(self).region().contains(coordinate.spec_position()) && old(self).cell(
                coordinate.spec_position(),
            ) is Some ==> r == Ok::<T, GridError>(old(self).cell(coordinate.spec_position())->0)
                && final(self)@ == old(self)@.update(
                old(self).region().index_of(coordinate.spec_position()),
                None,
            ),
    {
        proof {
            self.lemma_wf();
        }
        let index = match self.coordinate_to_index(coordinate.position()) {
            Ok(i) => i,
            Err(e) => {
                return Err(GridError::OutOfBoundsError(e));
            },
        };
        proof {
            lemma_index_of_coord(self.region(), coordinate.spec_position());
        }
        let mut cell = GridCoordinate::Empty(*coordinate.position());
        core::mem::swap(&mut self.grid_data[index], &mut cell);
        match cell {
            GridCoordinate::Object(val) => {
                proof {
                    assert(self@ =~= old(self)@.update(index as int, None::<T>));
                }
                Ok(val)
            },
            GridCoordinate::Empty(_) => {
                proof {
                    assert(self@ =~= old(self)@);
                }
                Err(GridError::UnoccupiedError(*coordinate.position()))
            },
        }
    }
    /// Adds an empty row of cells to the grid, growing the rectangle by
    /// the centering parity rule: South when the current row count is
    /// even, North when it is odd, so that an even count always has one
    /// more positive than negative row.  Returns whether the row was
    /// added at the top.  The new row is empty, so the occupied count is
    /// unchanged.
    pub fn add_row(&mut self) -> (r: bool)
        requires
            old(self).wf(),
            old(self).region().y_count() < i32::MAX,
            old(self).region().area() + old(self).region().x_count() <= usize::MAX,
        ensures
            final(self).wf(),
            r == (old(self).region().y_count() % 2 == 1),
            final(self).region() == region_expanded(
                old(self).region(),
                if r {
                    AbsoluteDirection::North
                } else {
                    AbsoluteDirection::South
                },
            ),
            r ==> final(self)@ == Seq::new(
                old(self).region().x_count() as nat,
                |i: int| None::<T>,
            ) + old(self)@,
            !r ==> final(self)@ == old(self)@ + Seq::new(
                old(self).region().x_count() as nat,
                |i: int| None::<T>,
            ),
            count_some(final(self)@) == count_some(old(self)@),
    {
        proof {
            self.lemma_wf();
            let nones = Seq::new(old(self).region().x_count() as nat, |i: int| None::<T>);
            lemma_count_some_none(nones);
            lemma_count_some_concat(nones, old(self)@);
            lemma_count_some_concat(old(self)@, nones);
        }
        if self.y_count() % 2 == 0 {
            self.add_bottom_row();
            false
        } else {
            self.add_top_row();
            true
        }
    }

    /// Adds an empty row at the top.  This stays private because the
    /// grid must keep its origin-centering bias: it is only correct
    /// when the number of rows is odd.
    fn add_top_row(&mut self)
        requires
            old(self).wf(),
            old(self).region().y_count() % 2 == 1,
            old(self).region().y_count() < i32::MAX,
            old(self).region().area() + old(self).region().x_count() <= usize::MAX,
        ensures
            final(self).wf(),
            final(self).region() == region_expanded(old(self).region(), AbsoluteDirection::North),
            final(self)@ == Seq::new(old(self).region().x_count() as nat, |i: int| None::<T>)
                + old(self)@,
    {
        proof {
            self.lemma_wf();
            self.lemma_room();
        }
        let ghost reg = self.region();
        let x_min = self.bounds.x_min_boundary();
        let x_max = self.bounds.x_max_boundary();
        let y_new = self.bounds.y_max_boundary() + 1;
        let mut new_data: Vec<GridCoordinate<T>> = Vec::new();
        let mut x = x_min;
        while x <= x_max
            invariant
                reg.wf(),
                x_min == reg.x_min,
                x_max == reg.x_max,
                y_new == reg.y_max + 1,
                reg.x_max < i32::MAX,
                reg.y_max < i32::MAX,
                x_min <= x <= x_max + 1,
                new_data@.len() == x - reg.x_min,
                forall|i: int|
                    0 <= i < new_data@.len() ==> new_data@[i] == GridCoordinate::Empty::<T>(
                        Coordinate { x: (reg.x_min + i) as i32, y: (reg.y_max + 1) as i32 },
                    ),
            decreases x_max + 1 - x,
        {
            new_data.push(GridCoordinate::Empty(Coordinate { x, y: y_new }));
            x = x + 1;
        }
        core::mem::swap(&mut self.grid_data, &mut new_data);
        self.grid_data.append(&mut new_data);
        let _ = self.bounds.expand_bounds_vertically();
        proof {
            let rn = self.region();
            let xc = reg.x_count();
            assert(rn == region_expanded(reg, AbsoluteDirection::North));
            assert(rn.area() == reg.area() + xc) by (nonlinear_arith)
                requires
                    rn.x_count() == reg.x_count() && rn.y_count() == reg.y_count() + 1 && rn.area()
                        == rn.x_count() * rn.y_count() && reg.area() == reg.x_count()
                        * reg.y_count() && xc == reg.x_count(),
            ;
            assert forall|i: int| 0 <= i < self.grid_data@.len() implies match #[trigger] self.grid_data@[i] {
                GridCoordinate::Empty(c) => c == rn.coord_at(i),
                GridCoordinate::Object(_) => true,
            } by {
                if i < xc {
                    lemma_index_small(xc, i);
                } else {
                    lemma_index_row_split(xc, i);
                    assert(old(self).grid_data@[i - xc] == self.grid_data@[i]);
                }
            }
            assert(self@ =~= Seq::new(reg.x_count() as nat, |i: int| None::<T>) + old(self)@) by {
                assert forall|i: int| 0 <= i < self@.len() implies self@[i] == (Seq::new(
                    reg.x_count() as nat,
                    |i: int| None::<T>,
                ) + old(self)@)[i] by {
                    if i < xc {
                        assert(self.grid_data@[i] == GridCoordinate::Empty::<T>(
                            Coordinate { x: (reg.x_min + i) as i32, y: (reg.y_max + 1) as i32 },
                        ));
                    } else {
                        assert(self.grid_data@[i] == old(self).grid_data@[i - xc]);
                    }
                }
            }
        }
    }

    /// Adds an empty row at the bottom.  This stays private for the
    /// same reason as `add_top_row`: it is only correct when the number
    /// of rows is even.
    fn add_bottom_row(&mut self)
        requires
            old(self).wf(),
            old(self).region().y_count() % 2 == 0,
            old(self).region().y_count() < i32::MAX,
            old(self).region().area() + old(self).region().x_count() <= usize::MAX,
        ensures
            final(self).wf(),
            final(self).region() == region_expanded(old(self).region(), AbsoluteDirection::South),
            final(self)@ == old(self)@ + Seq::new(
                old(self).region().x_count() as nat,
                |i: int| None::<T>,
            ),
    {
        proof {
            self.lemma_wf();
            self.lemma_room();
        }
        let ghost reg = self.region();
        let ghost start = self.grid_data@.len() as int;
        let x_min = self.bounds.x_min_boundary();
        let x_max = self.bounds.x_max_boundary();
        let y_new = self.bounds.y_min_boundary() - 1;
        let mut x = x_min;
        while x <= x_max
            invariant
                reg.wf(),
                x_min == reg.x_min,
                x_max == reg.x_max,
                y_new == reg.y_min - 1,
                reg.x_max < i32::MAX,
                reg.y_min > i32::MIN,
                x_min <= x <= x_max + 1,
                start == reg.area(),
                start + reg.x_count() <= usize::MAX,
                self.grid_data@.len() == start + (x - reg.x_min),
                self.grid_data@ =~= old(self).grid_data@ + self.grid_data@.skip(start),
                forall|i: int|
                    start <= i < self.grid_data@.len() ==> self.grid_data@[i]
                        == GridCoordinate::Empty::<T>(
                        Coordinate { x: (reg.x_min + i - start) as i32, y: (reg.y_min - 1) as i32 },
                    ),
                self.bounds == old(self).bounds,
            decreases x_max + 1 - x,
        {
            self.grid_data.push(GridCoordinate::Empty(Coordinate { x, y: y_new }));
            x = x + 1;
        }
        let _ = self.bounds.expand_bounds_vertically();
        proof {
            let rn = self.region();
            let xc = reg.x_count();
            let yc = reg.y_count();
            assert(rn == region_expanded(reg, AbsoluteDirection::South));
            assert(rn.area() == reg.area() + xc && reg.area() == yc * xc) by (nonlinear_arith)
                requires
                    rn.x_count() == reg.x_count() && rn.y_count() == reg.y_count() + 1 && rn.area()
                        == rn.x_count() * rn.y_count() && reg.area() == reg.x_count()
                        * reg.y_count() && xc == reg.x_count() && yc == reg.y_count(),
            ;
            assert forall|i: int| 0 <= i < self.grid_data@.len() implies match #[trigger] self.grid_data@[i] {
                GridCoordinate::Empty(c) => c == rn.coord_at(i),
                GridCoordinate::Object(_) => true,
            } by {
                if i < start {
                    assert(self.grid_data@[i] == old(self).grid_data@[i]);
                    assert(reg.coord_at(i) == rn.coord_at(i));
                } else {
                    lemma_index_last_row(xc, yc, i);
                }
            }
            assert(self@ =~= old(self)@ + Seq::new(reg.x_count() as nat, |i: int| None::<T>)) by {
                assert forall|i: int| 0 <= i < self@.len() implies self@[i] == (old(self)@
                    + Seq::new(reg.x_count() as nat, |i: int| None::<T>))[i] by {
                    if i < start {
                        assert(self.grid_data@[i] == old(self).grid_data@[i]);
                    }
                }
            }
        }
    }

    /// Relocates every occupied cell that matches one side of a row by
    /// one step in a direction, elements farthest along the direction
    /// first, so that no relocation ever collides.  The move set must
    /// be collision-free (`shift_safe`).
    #[verifier::rlimit(100)]
    fn row_filter_move_elements_in_direction(
        &mut self,
        above: bool,
        row: i32,
        direction: AbsoluteDirection,
    ) -> (r: Result<(), GridError>)
        requires
            old(self).wf(),
            shift_safe(old(self)@, old(self).region(), row as int, above, direction),
        ensures
            r is Ok,
            final(self).wf(),
            final(self).region() == old(self).region(),
            count_some(final(self)@) == count_some(old(self)@),
            final(self)@.len() == old(self)@.len(),
            forall|i: int|
                0 <= i < final(self)@.len() ==> final(self)@[i] == shifted_cell(
                    old(self)@,
                    old(self).region(),
                    row as int,
                    above,
                    direction,
                    i,
                ),
    {
        proof {
            self.lemma_wf();
            self.lemma_room();
        }
        let ghost reg = self.region();
        let ghost cells0 = self@;
        let mut coords: Vec<Coordinate> = Vec::new();
        let len = self.grid_data.len();
        let mut idx: usize = 0;
        while idx < len
            invariant
                self.wf(),
                reg == self.region(),
                cells0 == self@,
                len == self.grid_data@.len(),
                idx <= len,
                forall|j: int|
                    0 <= j < coords@.len() ==> reg.contains(#[trigger] coords@[j]) && row_match(
                        coords@[j],
                        row as int,
                        above,
                    ) && cells0[reg.index_of(coords@[j])] is Some && reg.index_of(coords@[j])
                        < idx,
                forall|j1: int, j2: int|
                    0 <= j1 < j2 < coords@.len() ==> reg.index_of(#[trigger] coords@[j1])
                        < reg.index_of(#[trigger] coords@[j2]),
                forall|c2: Coordinate|
                    reg.contains(c2) && row_match(c2, row as int, above) && cells0[#[trigger] reg.index_of(
                        c2,
                    )] is Some && reg.index_of(c2) < idx ==> coords@.contains(c2),
            decreases len - idx,
        {
            proof {
                self.lemma_wf();
                lemma_coord_at_index(reg, idx as int);
            }
            let is_object = match &self.grid_data[idx] {
                GridCoordinate::Object(_) => true,
                GridCoordinate::Empty(_) => false,
            };
            let ghost coords_before = coords@;
            if is_object {
                let c = match self.index_to_coordinate(idx) {
                    Ok(c) => c,
                    Err(_) => {
                        proof {
                            assert(false);
                        }
                        Coordinate { x: 0, y: 0 }
                    },
                };
                let matched = if above {
                    c.is_above_row(row)
                } else {
                    c.is_below_row(row)
                };
                if matched {
                    coords.push(c);
                }
            }
            idx = idx + 1;
            proof {
                assert forall|c2: Coordinate|
                    reg.contains(c2) && row_match(c2, row as int, above) && cells0[#[trigger] reg.index_of(
                        c2,
                    )] is Some && reg.index_of(c2) < idx implies coords@.contains(c2) by {
                    lemma_index_of_coord(reg, c2);
                    if reg.index_of(c2) == idx - 1 {
                        assert(c2 == reg.coord_at(idx - 1));
                        assert(coords@[coords@.len() - 1] == c2);
                    } else {
                        assert(coords_before.contains(c2));
                        let j = choose|j: int| 0 <= j < coords_before.len() && coords_before[j]
                            == c2;
                        assert(coords@[j] == c2);
                    }
                }
            }
        }
        proof {
            assert forall|c2: Coordinate|
                reg.contains(c2) && row_match(c2, row as int, above) && cells0[#[trigger] reg.index_of(
                    c2,
                )] is Some implies coords@.contains(c2) by {
                lemma_index_of_coord(reg, c2);
            }
            assert(coords_valid(coords@, cells0, reg, row as int, above));
        }
        let ghost cs = coords@;
        let total = coords.len();
        let mut k: usize = 0;
        let forward = match direction {
            AbsoluteDirection::North => true,
            AbsoluteDirection::West => true,
            AbsoluteDirection::South => false,
            AbsoluteDirection::East => false,
        };
        while k < total
            invariant
                self.wf(),
                self.region() == reg,
                cells0 == old(self)@,
                self@.len() == cells0.len(),
                cells0.len() == reg.area(),
                coords@ == cs,
                coords_valid(cs, cells0, reg, row as int, above),
                shift_safe(cells0, reg, row as int, above, direction),
                forward == (direction is North || direction is West),
                total == cs.len(),
                k <= total,
                count_some(self@) == count_some(cells0),
                forall|i: int|
                    0 <= i < self@.len() ==> self@[i] == shift_state(
                        cells0,
                        reg,
                        cs,
                        k as int,
                        direction,
                        forward,
                        i,
                    ),
            decreases total - k,
        {
            let c = if forward {
                coords[k]
            } else {
                coords[total - 1 - k]
            };
            let ghost kk = k as int;
            let ghost cidx: int = if forward {
                kk
            } else {
                total - 1 - kk
            };
            let ghost i_c = reg.index_of(c);
            let ghost d_c = moved_point(c, direction, 1);
            let ghost i_d = reg.index_of(d_c);
            let ghost pre = self@;
            proof {
                self.lemma_wf();
                self.lemma_room();
                assert(c == cs[cidx]);
                lemma_index_of_coord(reg, c);
                lemma_shift_step(reg, c, direction);
                // What membership among the processed sources says of a
                // coordinate's storage index.
                assert forall|x: Coordinate| #[trigger] processed(cs, kk, forward, x) implies (
                cs.contains(x) && reg.contains(x) && (if forward {
                    reg.index_of(x) < i_c
                } else {
                    reg.index_of(x) > i_c
                })) by {
                    if forward {
                        let j = choose|j: int| 0 <= j < kk && cs[j] == x;
                        assert(cs[j] == x);
                        assert(reg.index_of(cs[j]) < reg.index_of(cs[cidx]));
                    } else {
                        let j = choose|j: int| cs.len() - kk <= j < cs.len() && cs[j] == x;
                        assert(cs[j] == x);
                        assert(reg.index_of(cs[cidx]) < reg.index_of(cs[j]));
                    }
                }
                assert forall|x: Coordinate|
                    cs.contains(x) && (if forward {
                        reg.index_of(x) < i_c
                    } else {
                        reg.index_of(x) > i_c
                    }) implies #[trigger] processed(cs, kk, forward, x) by {
                    let j = choose|j: int| 0 <= j < cs.len() && cs[j] == x;
                    if forward {
                        if j >= kk {
                            if j > cidx {
                                assert(reg.index_of(cs[cidx]) < reg.index_of(cs[j]));
                            }
                            assert(false);
                        }
                    } else {
                        if j < cs.len() - kk {
                            if j < cidx {
                                assert(reg.index_of(cs[j]) < reg.index_of(cs[cidx]));
                            }
                            assert(false);
                        }
                    }
                }
                // The cell at `c` still holds its original occupant.
                let sp_c = shift_source(c, direction);
                if processed(cs, kk, forward, sp_c) {
                    assert(false);
                }
                if processed(cs, kk, forward, c) {
                    assert(false);
                }
                assert(self@[i_c] == cells0[i_c]);
                assert(cells0[i_c] is Some);
                // The destination lies in bounds because the move set is
                // collision-free.
                assert(cells0[reg.index_of(c)] is Some);
                assert(reg.contains(d_c));
                lemma_index_of_coord(reg, d_c);
                assert(reg.clamped(d_c) == d_c);
                assert(d_c != c);
                // The destination cell is empty: its occupant, if any,
                // would itself relocate and so was processed already.
                assert(shift_source(d_c, direction) == c);
                if !processed(cs, kk, forward, d_c) {
                    if cells0[i_d] is Some {
                        assert(row_match(d_c, row as int, above));
                        assert(cs.contains(d_c));
                        assert(processed(cs, kk, forward, d_c));
                        assert(false);
                    }
                }
                assert(self@[i_d] == shift_state(cells0, reg, cs, kk, direction, forward, i_d));
                lemma_coord_at_index(reg, i_d);
                assert(self@[i_d] is None);
            }
            let res = self.move_element_in_direction(&c, direction);
            proof {
                let v = pre[i_c]->0;
                assert(self@ == pre.update(i_c, None::<T>).update(i_d, Some(v)));
                // Extending the processed set by `c` alone.
                assert forall|x: Coordinate| #[trigger] processed(cs, kk + 1, forward, x) implies (
                processed(cs, kk, forward, x) || x == c) by {
                    if forward {
                        let j = choose|j: int| 0 <= j < kk + 1 && cs[j] == x;
                        if j < kk {
                            assert(processed(cs, kk, forward, x));
                        }
                    } else {
                        let j = choose|j: int| cs.len() - (kk + 1) <= j < cs.len() && cs[j] == x;
                        if j >= cs.len() - kk {
                            assert(processed(cs, kk, forward, x));
                        }
                    }
                }
                assert forall|x: Coordinate|
                    processed(cs, kk, forward, x) || x == c implies #[trigger] processed(
                    cs,
                    kk + 1,
                    forward,
                    x,
                ) by {
                    if processed(cs, kk, forward, x) {
                        if forward {
                            let j = choose|j: int| 0 <= j < kk && cs[j] == x;
                            assert(0 <= j < kk + 1 && cs[j] == x);
                        } else {
                            let j = choose|j: int| cs.len() - kk <= j < cs.len() && cs[j] == x;
                            assert(cs.len() - (kk + 1) <= j < cs.len() && cs[j] == x);
                        }
                    } else {
                        assert(cs[cidx] == c);
                    }
                }
                assert forall|i: int| 0 <= i < self@.len() implies self@[i] == shift_state(
                    cells0,
                    reg,
                    cs,
                    kk + 1,
                    direction,
                    forward,
                    i,
                ) by {
                    lemma_coord_at_index(reg, i);
                    let p = reg.coord_at(i);
                    let sp = shift_source(p, direction);
                    if i == i_d {
                        assert(p == d_c);
                        assert(sp == c);
                        assert(processed(cs, kk + 1, forward, c));
                        assert(self@[i] == Some(v));
                        assert(cells0[reg.index_of(sp)] == Some(v));
                    } else if i == i_c {
                        assert(p == c);
                        assert(sp != c);
                        assert(!processed(cs, kk + 1, forward, sp)) by {
                            if processed(cs, kk, forward, sp) {
                                assert(false);
                            }
                        }
                        assert(processed(cs, kk + 1, forward, c));
                        assert(self@[i] is None);
                    } else {
                        assert(self@[i] == pre[i]);
                        if p == c {
                            lemma_index_of_coord(reg, c);
                            assert(false);
                        }
                        if sp == c {
                            lemma_shift_step(reg, p, direction);
                            assert(p == d_c);
                            assert(false);
                        }
                    }
                }
            }
            match res {
                Ok(_) => {},
                Err(e) => {
                    proof {
                        assert(false);
                    }
                    return Err(e);
                },
            }
            k = k + 1;
        }
        proof {
            // With every source processed, the midway formula is the
            // promised one.
            assert forall|x: Coordinate| #[trigger] processed(cs, total as int, forward, x) <==> (
            cs.contains(x)) by {
                if processed(cs, total as int, forward, x) {
                    if forward {
                        let j = choose|j: int| 0 <= j < total && cs[j] == x;
                        assert(cs.contains(x));
                    } else {
                        let j = choose|j: int| cs.len() - total <= j < cs.len() && cs[j] == x;
                        assert(cs.contains(x));
                    }
                }
                if cs.contains(x) {
                    let j = choose|j: int| 0 <= j < cs.len() && cs[j] == x;
                    assert(0 <= j < total && cs[j] == x);
                }
            }
            assert forall|i: int| 0 <= i < self@.len() implies self@[i] == shifted_cell(
                cells0,
                reg,
                row as int,
                above,
                direction,
                i,
            ) by {
                lemma_coord_at_index(reg, i);
                let p = reg.coord_at(i);
                let sp = shift_source(p, direction);
                assert(self@[i] == shift_state(cells0, reg, cs, total as int, direction, forward, i));
                if reg.contains(sp) {
                    lemma_index_of_coord(reg, sp);
                }
                if reg.contains(sp) && row_match(sp, row as int, above) && cells0[reg.index_of(
                    sp,
                )] is Some {
                    assert(cs.contains(sp));
                    assert(processed(cs, total as int, forward, sp));
                } else {
                    if processed(cs, total as int, forward, sp) {
                        assert(cs.contains(sp));
                        let j = choose|j: int| 0 <= j < cs.len() && cs[j] == sp;
                        assert(reg.contains(cs[j]) && row_match(cs[j], row as int, above)
                            && cells0[reg.index_of(cs[j])] is Some);
                        assert(false);
                    }
                    if row_match(p, row as int, above) && cells0[i] is Some {
                        assert(cs.contains(p));
                        assert(processed(cs, total as int, forward, p));
                    } else {
                        if processed(cs, total as int, forward, p) {
                            assert(cs.contains(p));
                            let j = choose|j: int| 0 <= j < cs.len() && cs[j] == p;
                            assert(reg.contains(cs[j]) && row_match(cs[j], row as int, above)
                                && cells0[reg.index_of(cs[j])] is Some);
                            assert(false);
                        }
                    }
                }
            }
        }
        Ok(())
    }

    /// Grow the grid by one row, keeping it origin-centered, and
    /// relocate the already-occupied cells relative to `y_coord`: when
    /// the grid grows North (odd row count), cells on or above the row
    /// move North; when it grows South (even row count), cells on or
    /// below the row move South.  Returns whether the grid grew North.
    /// The relocations are collision-free by construction, and the
    /// occupied count and the centering invariant are preserved.
    #[verifier::rlimit(100)]
    pub fn expand_at_row(&mut self, y_coord: i32) -> (r: bool)
        requires
            old(self).wf(),
            old(self).region().y_count() < i32::MAX,
            old(self).region().area() + old(self).region().x_count() <= usize::MAX,
        ensures
            final(self).wf(),
            final(self).region().is_centered(),
            r == (old(self).region().y_count() % 2 == 1),
            final(self).region() == region_expanded(
                old(self).region(),
                if r {
                    AbsoluteDirection::North
                } else {
                    AbsoluteDirection::South
                },
            ),
            count_some(final(self)@) == count_some(old(self)@),
            final(self)@.len() == old(self)@.len() + old(self).region().x_count(),
            forall|i: int|
                0 <= i < final(self)@.len() ==> final(self)@[i] == expanded_cell(
                    old(self)@,
                    old(self).region(),
                    y_coord as int,
                    r,
                    i,
                ),
    {
        proof {
            self.lemma_wf();
        }
        let ghost cells0 = self@;
        let ghost reg = self.region();
        let top_add = self.add_row();
        let ghost mid = self@;
        let ghost rn = self.region();
        if top_add {
            proof {
                self.lemma_wf();
                self.lemma_room();
                lemma_grown_north_safe(cells0, mid, reg, rn, y_coord as int);
            }
            let _ = self.move_elements_above_row_in_direction(y_coord, AbsoluteDirection::North);
            proof {
                self.lemma_wf();
                lemma_grown_north_cells(cells0, mid, self@, reg, rn, y_coord as int);
            }
            true
        } else {
            proof {
                self.lemma_wf();
                self.lemma_room();
                lemma_grown_south_safe(cells0, mid, reg, rn, y_coord as int);
            }
            let _ = self.move_elements_below_row_in_direction(y_coord, AbsoluteDirection::South);
            proof {
                self.lemma_wf();
                lemma_grown_south_cells(cells0, mid, self@, reg, rn, y_coord as int);
            }
            false
        }
    }

    /// The occupied cells in row-major order: each coordinate paired
    /// with a reference to its occupant.
    pub fn iter_elements_new(&self) -> (r: Vec<(Coordinate, &T)>)
        requires
            self.wf(),
        ensures
            r@.len() == occupied_list(self@, self.region()).len(),
            forall|k: int|
                0 <= k < r@.len() ==> (#[trigger] r@[k]).0 == occupied_list(
                    self@,
                    self.region(),
                )[k].0 && *r@[k].1 == occupied_list(self@, self.region())[k].1,
    {
        proof {
            self.lemma_wf();
        }
        let ghost reg = self.region();
        let mut result: Vec<(Coordinate, &T)> = Vec::new();
        let len = self.grid_data.len();
        let mut idx: usize = 0;
        proof {
            assert(self@.take(0) =~= Seq::<Option<T>>::empty());
        }
        while idx < len
            invariant
                self.wf(),
                reg == self.region(),
                len == self.grid_data@.len(),
                self@.len() == len,
                idx <= len,
                result@.len() == occupied_list(self@.take(idx as int), reg).len(),
                forall|k: int|
                    0 <= k < result@.len() ==> (#[trigger] result@[k]).0 == occupied_list(
                        self@.take(idx as int),
                        reg,
                    )[k].0 && *result@[k].1 == occupied_list(self@.take(idx as int), reg)[k].1,
            decreases len - idx,
        {
            proof {
                self.lemma_wf();
                lemma_coord_at_index(reg, idx as int);
                assert(self@.take(idx + 1).drop_last() =~= self@.take(idx as int));
                assert(self@.take(idx + 1).last() == self@[idx as int]);
            }
            let c = self.index_to_coordinate(idx).unwrap();
            match &self.grid_data[idx] {
                GridCoordinate::Object(v) => {
                    result.push((c, v));
                },
                GridCoordinate::Empty(_) => {},
            }
            idx = idx + 1;
        }
        proof {
            assert(self@.take(len as int) =~= self@);
        }
        result
    }

    /// The rows with no occupied cell, in ascending coordinate order.
    pub fn empty_rows(&self) -> (r: Vec<i32>)
        requires
            self.wf(),
        ensures
            forall|k: int|
                0 <= k < r@.len() ==> self.region().y_min <= #[trigger] r@[k]
                    <= self.region().y_max && row_clear(self@, self.region(), r@[k] as int),
            forall|y: i32|
                self.region().y_min <= y <= self.region().y_max && #[trigger] row_clear(
                    self@,
                    self.region(),
                    y as int,
                ) ==> r@.contains(y),
            forall|k1: int, k2: int| 0 <= k1 < k2 < r@.len() ==> r@[k1] < r@[k2],
    {
        proof {
            self.lemma_wf();
            self.lemma_room();
        }
        let ghost reg = self.region();
        let x_min = self.bounds.x_min_boundary();
        let x_max = self.bounds.x_max_boundary();
        let y_min = self.bounds.y_min_boundary();
        let y_max = self.bounds.y_max_boundary();
        let mut result: Vec<i32> = Vec::new();
        let mut y = y_min;
        while y <= y_max
            invariant
                self.wf(),
                reg == self.region(),
                x_min == reg.x_min,
                x_max == reg.x_max,
                y_min == reg.y_min,
                y_max == reg.y_max,
                reg.wf(),
                reg.x_max < i32::MAX,
                reg.x_min > i32::MIN,
                reg.y_max < i32::MAX,
                reg.y_min > i32::MIN,
                y_min <= y <= y_max + 1,
                forall|k: int|
                    0 <= k < result@.len() ==> y_min <= #[trigger] result@[k] < y && row_clear(
                        self@,
                        reg,
                        result@[k] as int,
                    ),
                forall|y2: i32|
                    y_min <= y2 < y && #[trigger] row_clear(self@, reg, y2 as int)
                        ==> result@.contains(y2),
                forall|k1: int, k2: int| 0 <= k1 < k2 < result@.len() ==> result@[k1] < result@[k2],
            decreases y_max + 1 - y,
        {
            let mut x = x_min;
            let mut occupied = false;
            while x <= x_max
                invariant
                    self.wf(),
                    reg == self.region(),
                    x_min == reg.x_min,
                    x_max == reg.x_max,
                    y_min <= y <= y_max,
                    y_min == reg.y_min,
                    y_max == reg.y_max,
                    reg.wf(),
                    reg.x_max < i32::MAX,
                    reg.x_min > i32::MIN,
                    reg.y_max < i32::MAX,
                    reg.y_min > i32::MIN,
                    x_min <= x <= x_max + 1,
                    !occupied ==> forall|c: Coordinate|
                        reg.contains(c) && c.y == y && c.x < x ==> #[trigger] self@[reg.index_of(
                            c,
                        )] is None,
                    occupied ==> !row_clear(self@, reg, y as int),
                decreases x_max + 1 - x,
            {
                let c = Coordinate { x, y };
                if self.element_unchecked(&c).is_some() {
                    occupied = true;
                    proof {
                        assert(!(self@[reg.index_of(c)] is None));
                    }
                }
                x = x + 1;
            }
            let ghost results_before = result@;
            if !occupied {
                result.push(y);
                proof {
                    assert(result@[result@.len() - 1] == y);
                }
            }
            y = y + 1;
            proof {
                assert forall|y2: i32|
                    y_min <= y2 < y && #[trigger] row_clear(self@, reg, y2 as int) implies
                    result@.contains(y2) by {
                    if y2 < y - 1 {
                        assert(results_before.contains(y2));
                        let k = choose|k: int|
                            0 <= k < results_before.len() && results_before[k] == y2;
                        assert(result@[k] == y2);
                    }
                }
            }
        }
        result
    }

    /// The columns with no occupied cell, in ascending coordinate
    /// order.
    pub fn empty_columns(&self) -> (r: Vec<i32>)
        requires
            self.wf(),
        ensures
            forall|k: int|
                0 <= k < r@.len() ==> self.region().x_min <= #[trigger] r@[k]
                    <= self.region().x_max && column_clear(self@, self.region(), r@[k] as int),
            forall|x: i32|
                self.region().x_min <= x <= self.region().x_max && #[trigger] column_clear(
                    self@,
                    self.region(),
                    x as int,
                ) ==> r@.contains(x),
            forall|k1: int, k2: int| 0 <= k1 < k2 < r@.len() ==> r@[k1] < r@[k2],
    {
        proof {
            self.lemma_wf();
            self.lemma_room();
        }
        let ghost reg = self.region();
        let x_min = self.bounds.x_min_boundary();
        let x_max = self.bounds.x_max_boundary();
        let y_min = self.bounds.y_min_boundary();
        let y_max = self.bounds.y_max_boundary();
        let mut result: Vec<i32> = Vec::new();
        let mut x = x_min;
        while x <= x_max
            invariant
                self.wf(),
                reg == self.region(),
                x_min == reg.x_min,
                x_max == reg.x_max,
                y_min == reg.y_min,
                y_max == reg.y_max,
                reg.wf(),
                reg.x_max < i32::MAX,
                reg.x_min > i32::MIN,
                reg.y_max < i32::MAX,
                reg.y_min > i32::MIN,
                x_min <= x <= x_max + 1,
                forall|k: int|
                    0 <= k < result@.len() ==> x_min <= #[trigger] result@[k] < x && column_clear(
                        self@,
                        reg,
                        result@[k] as int,
                    ),
                forall|x2: i32|
                    x_min <= x2 < x && #[trigger] column_clear(self@, reg, x2 as int)
                        ==> result@.contains(x2),
                forall|k1: int, k2: int| 0 <= k1 < k2 < result@.len() ==> result@[k1] < result@[k2],
            decreases x_max + 1 - x,
        {
            let mut y = y_min;
            let mut occupied = false;
            while y <= y_max
                invariant
                    self.wf(),
                    reg == self.region(),
                    x_min == reg.x_min,
                    x_max == reg.x_max,
                    x_min <= x <= x_max,
                    y_min == reg.y_min,
                    y_max == reg.y_max,
                    reg.wf(),
                    reg.x_max < i32::MAX,
                    reg.x_min > i32::MIN,
                    reg.y_max < i32::MAX,
                    reg.y_min > i32::MIN,
                    y_min <= y <= y_max + 1,
                    !occupied ==> forall|c: Coordinate|
                        reg.contains(c) && c.x == x && c.y < y ==> #[trigger] self@[reg.index_of(
                            c,
                        )] is None,
                    occupied ==> !column_clear(self@, reg, x as int),
                decreases y_max + 1 - y,
            {
                let c = Coordinate { x, y };
                if self.element_unchecked(&c).is_some() {
                    occupied = true;
                    proof {
                        assert(!(self@[reg.index_of(c)] is None));
                    }
                }
                y = y + 1;
            }
            let ghost results_before = result@;
            if !occupied {
                result.push(x);
                proof {
                    assert(result@[result@.len() - 1] == x);
                }
            }
            x = x + 1;
            proof {
                assert forall|x2: i32|
                    x_min <= x2 < x && #[trigger] column_clear(self@, reg, x2 as int) implies
                    result@.contains(x2) by {
                    if x2 < x - 1 {
                        assert(results_before.contains(x2));
                        let k = choose|k: int|
                            0 <= k < results_before.len() && results_before[k] == x2;
                        assert(result@[k] == x2);
                    }
                }
            }
        }
        result
    }

    /// A row-per-line picture of the grid: `#` marks an occupied cell
    /// and `.` an empty one, rows from north to south.  A quick way to
    /// see what is going on in a small grid; not meant for
    /// round-tripping.
    pub fn element_statuses(&self) -> (r: String)
        requires
            self.wf(),
        ensures
            r@ == grid_statuses(self@, self.region()),
    {
        proof {
            self.lemma_wf();
            self.lemma_room();
            reveal_strlit("#");
            reveal_strlit(".");
            reveal_strlit("\n");
        }
        let ghost reg = self.region();
        let ghost xc = reg.x_count();
        let ghost yc = reg.y_count();
        let x_min = self.bounds.x_min_boundary();
        let x_max = self.bounds.x_max_boundary();
        let y_min = self.bounds.y_min_boundary();
        let y_max = self.bounds.y_max_boundary();
        let mut result = String::new();
        let mut y = y_max;
        while y >= y_min
            invariant
                self.wf(),
                reg == self.region(),
                xc == reg.x_count(),
                yc == reg.y_count(),
                x_min == reg.x_min,
                x_max == reg.x_max,
                y_min == reg.y_min,
                y_max == reg.y_max,
                reg.wf(),
                reg.x_max < i32::MAX,
                reg.x_min > i32::MIN,
                reg.y_max < i32::MAX,
                reg.y_min > i32::MIN,
                y_min - 1 <= y <= y_max,
                result@ == status_prefix(self@, reg, reg.y_max - y),
                "#"@ == seq!['#'],
                "."@ == seq!['.'],
                "\n"@ == seq!['\n'],
            decreases y - y_min + 1,
        {
            let ghost my = reg.y_max - y;
            let ghost row_start = result@;
            let mut x = x_min;
            while x <= x_max
                invariant
                    self.wf(),
                    reg == self.region(),
                    xc == reg.x_count(),
                    x_min == reg.x_min,
                    x_max == reg.x_max,
                    y_min == reg.y_min,
                    y_max == reg.y_max,
                    y_min <= y <= y_max,
                    my == reg.y_max - y,
                    reg.wf(),
                    reg.x_max < i32::MAX,
                    reg.x_min > i32::MIN,
                    reg.y_max < i32::MAX,
                    reg.y_min > i32::MIN,
                    x_min <= x <= x_max + 1,
                    result@ == row_start + status_row(self@, reg, my).take(x - reg.x_min),
                    row_start == status_prefix(self@, reg, my),
                    "#"@ == seq!['#'],
                    "."@ == seq!['.'],
                decreases x_max + 1 - x,
            {
                let c = Coordinate { x, y };
                proof {
                    lemma_index_of_coord(reg, c);
                    assert(reg.index_of(c) == my * xc + (x - reg.x_min));
                }
                if self.element_unchecked(&c).is_some() {
                    result.append("#");
                } else {
                    result.append(".");
                }
                proof {
                    assert(status_row(self@, reg, my).take(x + 1 - reg.x_min) =~= status_row(
                        self@,
                        reg,
                        my,
                    ).take(x - reg.x_min).push(status_char(self@[my * xc + (x - reg.x_min)])));
                    assert(result@ =~= row_start + status_row(self@, reg, my).take(
                        x + 1 - reg.x_min,
                    ));
                }
                x = x + 1;
            }
            if y != y_min {
                result.append("\n");
            }
            proof {
                assert(status_row(self@, reg, my).take(xc) =~= status_row(self@, reg, my));
                if y != y_min {
                    assert(result@ =~= status_prefix(self@, reg, my + 1));
                } else {
                    assert(my == yc - 1);
                    assert(result@ =~= status_prefix(self@, reg, my + 1));
                }
            }
            y = y - 1;
        }
        proof {
            assert(reg.y_max - (reg.y_min - 1) == yc);
        }
        result
    }

    /// Transpose the grid: an `N`x`M` grid becomes `M`x`N`, and the
    /// occupant of matrix-like position `(mx, my)` moves to `(my, mx)`.
    /// Transposing twice restores the original shape and occupancy; see
    /// `lemma_transpose_twice_restores`.
    pub fn transpose_new(&mut self)
        requires
            old(self).wf(),
        ensures
            final(self).wf(),
            final(self).region() == centered_region(
                old(self).region().y_count(),
                old(self).region().x_count(),
            ),
            final(self)@ == transposed_cells(
                old(self)@,
                old(self).region().x_count(),
                old(self).region().y_count(),
            ),
    {
        proof {
            self.lemma_wf();
        }
        let ghost reg = self.region();
        let ghost xc = reg.x_count();
        let ghost yc = reg.y_count();
        let ghost cells0 = self@;
        let ghost data0 = self.grid_data@;
        let x_count = Grid::x_count(self);
        let y_count = Grid::y_count(self);
        proof {
            crate::region::lemma_centered_axis_counts(yc);
            crate::region::lemma_centered_axis_counts(xc);
            assert(centered_region(yc, xc).area() == yc * xc);
            assert(yc * xc == xc * yc) by (nonlinear_arith);
        }
        let mut other: Self = Self::new(y_count, x_count);
        core::mem::swap(self, &mut other);
        let ghost rn = self.region();
        proof {
            self.lemma_wf();
            assert(rn.x_count() == yc && rn.y_count() == xc && rn.area() == reg.area());
        }
        let Grid { grid_data: mut data, bounds: _ } = other;
        proof {
            assert(data@ == data0);
            assert(data@ =~= data0.take(data0.len() as int));
            assert forall|j: int| 0 <= j < self@.len() implies self@[j] == (if transpose_src(
                j,
                xc,
                yc,
            ) >= data@.len() {
                cells0[transpose_src(j, xc, yc)]
            } else {
                None::<T>
            }) by {
                lemma_transpose_src_inverse(j, xc, yc);
            }
        }
        while data.len() > 0
            invariant
                self.wf(),
                self.region() == rn,
                rn.area() == reg.area(),
                reg.wf(),
                xc == reg.x_count(),
                yc == reg.y_count(),
                x_count == xc,
                y_count == yc,
                reg.area() == xc * yc,
                cells0.len() == reg.area(),
                self@.len() == reg.area(),
                data0.len() == reg.area(),
                data@.len() <= data0.len(),
                data@ == data0.take(data@.len() as int),
                cells0 == data0.map_values(|gc: GridCoordinate<T>| gc.content()),
                forall|j: int|
                    0 <= j < self@.len() ==> self@[j] == (if transpose_src(j, xc, yc)
                        >= data@.len() {
                        cells0[transpose_src(j, xc, yc)]
                    } else {
                        None::<T>
                    }),
            decreases data@.len(),
        {
            let ghost m = data@.len() as int;
            let ghost predata = data@;
            let cell = data.pop().unwrap();
            let i = data.len();
            proof {
                assert(predata == data0.take(m));
                assert(predata.len() == m);
                assert(m >= 1);
                assert(data@.len() == m - 1 && i as int == m - 1);
                assert(cell == predata[m - 1]);
                assert(predata[m - 1] == data0.take(m)[m - 1]);
                assert(data0.take(m)[m - 1] == data0[m - 1]);
                assert forall|k2: int| 0 <= k2 < m - 1 implies data@[k2] == data0[k2] by {
                    assert(data@[k2] == predata.subrange(0, m - 1)[k2]);
                    assert(predata.subrange(0, m - 1)[k2] == predata[k2]);
                    assert(predata[k2] == data0.take(m)[k2]);
                }
                assert(data@ =~= data0.take(i as int));
                assert(cells0[i as int] == data0[i as int].content());
                lemma_transpose_src_inverse(i as int, yc, xc);
            }
            let mx = i % x_count;
            let my = i / x_count;
            proof {
                assert(mx * y_count + my == transpose_src(i as int, yc, xc));
                assert(transpose_src(i as int, yc, xc) < yc * xc);
            }
            let j = mx * y_count + my;
            let ghost jj = j as int;
            let ghost pre = self@;
            proof {
                assert(transpose_src(jj, xc, yc) == i as int);
                assert(jj < self@.len());
            }
            match cell {
                GridCoordinate::Object(v) => {
                    self.grid_data[j] = GridCoordinate::Object(v);
                    proof {
                        assert(self@ =~= pre.update(jj, Some(v)));
                    }
                },
                GridCoordinate::Empty(_) => {},
            }
            proof {
                assert forall|j2: int| 0 <= j2 < self@.len() implies self@[j2] == (if
                    transpose_src(j2, xc, yc) >= data@.len() {
                    cells0[transpose_src(j2, xc, yc)]
                } else {
                    None::<T>
                }) by {
                    lemma_transpose_src_inverse(j2, xc, yc);
                    if j2 != jj {
                        assert(self@[j2] == pre[j2]);
                        if transpose_src(j2, xc, yc) == i as int {
                            assert(j2 == jj);
                        }
                    }
                }
            }
        }
        proof {
            assert(self@ =~= transposed_cells(cells0, xc, yc)) by {
                assert forall|j: int| 0 <= j < self@.len() implies self@[j] == transposed_cells(
                    cells0,
                    xc,
                    yc,
                )[j] by {
                    lemma_transpose_src_inverse(j, xc, yc);
                }
            }
        }
    }

    /// Relocate every occupied cell on or north of a row one step in a
    /// direction.  The move set must be collision-free (`shift_safe`),
    /// which makes the relocation succeed; the occupied count is
    /// unchanged.
    pub fn move_elements_above_row_in_direction(
        &mut self,
        y_coord: i32,
        direction: AbsoluteDirection,
    ) -> (r: Result<(), GridError>)
        requires
            old(self).wf(),
            shift_safe(old(self)@, old(self).region(), y_coord as int, true, direction),
        ensures
            r is Ok,
            final(self).wf(),
            final(self).region() == old(self).region(),
            count_some(final(self)@) == count_some(old(self)@),
            final(self)@.len() == old(self)@.len(),
            forall|i: int|
                0 <= i < final(self)@.len() ==> final(self)@[i] == shifted_cell(
                    old(self)@,
                    old(self).region(),
                    y_coord as int,
                    true,
                    direction,
                    i,
                ),
    {
        self.row_filter_move_elements_in_direction(true, y_coord, direction)
    }

    /// Relocate every occupied cell on or south of a row one step in a
    /// direction.  The move set must be collision-free (`shift_safe`),
    /// which makes the relocation succeed; the occupied count is
    /// unchanged.
    pub fn move_elements_below_row_in_direction(
        &mut self,
        y_coord: i32,
        direction: AbsoluteDirection,
    ) -> (r: Result<(), GridError>)
        requires
            old(self).wf(),
            shift_safe(old(self)@, old(self).region(), y_coord as int, false, direction),
        ensures
            r is Ok,
            final(self).wf(),
            final(self).region() == old(self).region(),
            count_some(final(self)@) == count_some(old(self)@),
            final(self)@.len() == old(self)@.len(),
            forall|i: int|
                0 <= i < final(self)@.len() ==> final(self)@[i] == shifted_cell(
                    old(self)@,
                    old(self).region(),
                    y_coord as int,
                    false,
                    direction,
                    i,
                ),
    {
        self.row_filter_move_elements_in_direction(false, y_coord, direction)
    }

    /// The invariant keeps every boundary strictly inside the `i32`
    /// range, so a single step from a contained coordinate stays
    /// representable.
    pub proof fn lemma_room(self)
        requires
            self.wf(),
        ensures
            self.region().x_min > i32::MIN,
            self.region().x_max < i32::MAX,
            self.region().y_min > i32::MIN,
            self.region().y_max < i32::MAX,
            forall|c: Coordinate, d: AbsoluteDirection|
                self.region().contains(c) ==> #[trigger] move_in_range(c, d, 1),
    {
        self.lemma_wf();
        assert forall|c: Coordinate, d: AbsoluteDirection|
            self.region().contains(c) implies #[trigger] move_in_range(c, d, 1) by {
            assert(unit_dx(d) * 1 == unit_dx(d) && unit_dy(d) * 1 == unit_dy(d));
        }
    }

    /// Move the element at a coordinate one step in a direction.  The
    /// move is refused, leaving the grid unchanged, when the coordinate
    /// is outside the grid, when the step would leave the bounds (the
    /// error then names the would-be destination), when the destination
    /// is already occupied, or when the cell holds no element.  A move
    /// never changes the number of occupied cells.
    pub fn move_element_in_direction(&mut self, coordinate: &Coordinate, direction:
        AbsoluteDirection) -> (r: Result<Coordinate, GridError>)
        requires
            old(self).wf(),
        ensures
            final(self).wf(),
            final(self).region() == old(self).region(),
            count_some(final(self)@) == count_some(old(self)@),
            ({
                let reg = old(self).region();
                let target = moved_point(*coordinate, direction, 1);
                let dest = reg.clamped(target);
                if !reg.contains(*coordinate) {
                    (r matches Err(e) && e matches GridError::OutOfBoundsError(o)
                        && o.spec_position() == *coordinate) && final(self)@ == old(self)@
                } else if dest == *coordinate {
                    (r matches Err(e) && e matches GridError::OutOfBoundsError(o)
                        && o.spec_position() == target) && final(self)@ == old(self)@
                } else if old(self).cell(dest) is Some {
                    (r matches Err(e) && e is CollisionError) && final(self)@ == old(self)@
                } else if old(self).cell(*coordinate) is None {
                    (r matches Err(e) && e matches GridError::UnoccupiedError(c) && c
                        == *coordinate) && final(self)@ == old(self)@
                } else {
                    r == Ok::<Coordinate, GridError>(dest) && final(self)@ == old(
                        self,
                    )@.update(reg.index_of(*coordinate), None).update(
                        reg.index_of(dest),
                        Some(old(self).cell(*coordinate)->0),
                    )
                }
            }),
    {
        proof {
            self.lemma_wf();
            self.lemma_room();
        }
        let mut marker = match BoundedMovingObject::try_from((&*self, coordinate)) {
            Ok(m) => m,
            Err(e) => {
                return Err(GridError::OutOfBoundsError(e));
            },
        };
        if marker.move_in_absolute_direction(direction, 1) {
            proof {
                lemma_index_of_coord(self.region(), marker.spec_position());
            }
            if self.element_unchecked(marker.position()).is_some() {
                return Err(GridError::CollisionError);
            }
            let element = match self.remove_element(coordinate) {
                Ok(v) => v,
                Err(e) => {
                    return Err(e);
                },
            };
            let destination = *marker.position();
            let _ = self.store_element(&destination, element);
            proof {
                let reg = old(self).region();
                let i = reg.index_of(*coordinate);
                let j = reg.index_of(destination);
                lemma_index_of_coord(reg, *coordinate);
                lemma_index_of_coord(reg, destination);
                lemma_count_some_update(old(self)@, i, None::<T>);
                lemma_count_some_update(
                    old(self)@.update(i, None::<T>),
                    j,
                    Some(old(self).cell(*coordinate)->0),
                );
            }
            Ok(destination)
        } else {
            Err(
                GridError::OutOfBoundsError(
                    OutOfBoundsError::new(marker.coordinate_in_direction(direction, 1)),
                ),
            )
        }
    }
}

impl<T> Bounded for Grid<T> {
    closed spec fn region(&self) -> Region {
        self.bounds.region()
    }

    fn x_min_boundary(&self) -> i32 {
        self.bounds.x_min_boundary()
    }

    fn x_max_boundary(&self) -> i32 {
        self.bounds.x_max_boundary()
    }

    fn y_min_boundary(&self) -> i32 {
        self.bounds.y_min_boundary()
    }

    fn y_max_boundary(&self) -> i32 {
        self.bounds.y_max_boundary()
    }
}

impl<T> OriginBounded for Grid<T> {
    open spec fn origin_wf(&self) -> bool {
        self.wf()
    }

    open spec fn spec_x_count(&self) -> int {
        self.region().x_count()
    }

    open spec fn spec_y_count(&self) -> int {
        self.region().y_count()
    }

    fn x_count(&self) -> usize {
        Grid::x_count(self)
    }

    fn y_count(&self) -> usize {
        Grid::y_count(self)
    }
}

} // verus!
