use vstd::pervasive::cloned;
use vstd::prelude::*;

use crate::bounded::Bounded;
use crate::coordinate::Coordinate;
use crate::grid::generic_grid::Grid;
use crate::grid::grid_creation_error::GridCreationError;
use crate::region::{centered_region, lemma_centered_axis_counts, lemma_index_of_coord};

verus! {

/// A line with any carriage return that preceded its line break
/// removed.
pub open spec fn strip_cr(line: Seq<char>) -> Seq<char> {
    if line.len() > 0 && line.last() == '\r' {
        line.drop_last()
    } else {
        line
    }
}

/// The rows completed by a scan of `s`, each with a carriage return
/// before its line break removed, and the partial row after the last
/// line break.
pub open spec fn split_acc(s: Seq<char>) -> (Seq<Seq<char>>, Seq<char>)
    decreases s.len(),
{
    if s.len() == 0 {
        (Seq::empty(), Seq::empty())
    } else {
        let prev = split_acc(s.drop_last());
        if s.last() == '\n' {
            (prev.0.push(strip_cr(prev.1)), Seq::empty())
        } else {
            (prev.0, prev.1.push(s.last()))
        }
    }
}

/// The lines of a text: the pieces between line breaks, a carriage
/// return before a line break belonging to the break, with no empty
/// piece after a trailing line break.
pub open spec fn lines_of(s: Seq<char>) -> Seq<Seq<char>> {
    let acc = split_acc(s);
    if acc.1.len() == 0 {
        acc.0
    } else {
        acc.0.push(acc.1)
    }
}

/// The value a character mapping assigns to `c`: the first entry that
/// names it, or `None`.
pub open spec fn map_lookup<T>(m: Seq<(char, T)>, c: char) -> Option<T>
    decreases m.len(),
{
    if m.len() == 0 {
        None
    } else if m[0].0 == c {
        Some(m[0].1)
    } else {
        map_lookup(m.drop_first(), c)
    }
}

impl<T> Grid<T> {
    /// Create a grid from row data: each inner vector is one row, north
    /// first, holding `Some` for an occupied cell and `None` for an
    /// empty one.  Rows of unequal length are refused.
    #[verifier::rlimit(60)]
    pub fn try_from(value: Vec<Vec<Option<T>>>) -> (r: Result<Grid<T>, GridCreationError>)
        requires
            value@.len() >= 1,
            value@[0]@.len() >= 1,
            value@.len() <= i32::MAX,
            value@[0]@.len() <= i32::MAX,
            value@.len() * value@[0]@.len() <= usize::MAX,
        ensures
            (forall|ri: int|
                0 <= ri < value@.len() ==> (#[trigger] value@[ri])@.len() == value@[0]@.len())
                <==> r is Ok,
            r matches Ok(g) ==> ({
                let xs = value@[0]@.len() as int;
                let ys = value@.len() as int;
                &&& g.wf()
                &&& g.region() == centered_region(xs, ys)
                &&& g@.len() == xs * ys
                &&& forall|i: int| 0 <= i < g@.len() ==> g@[i] == value@[i / xs]@[i % xs]
            }),
    {
        let first_row_len = value[0].len();
        let y_size = value.len();
        let mut ri: usize = 1;
        while ri < y_size
            invariant
                1 <= ri <= y_size,
                y_size == value@.len(),
                first_row_len == value@[0]@.len(),
                forall|j: int| 0 <= j < ri ==> (#[trigger] value@[j])@.len() == first_row_len,
            decreases y_size - ri,
        {
            if value[ri].len() != first_row_len {
                return Err(GridCreationError {  });
            }
            ri = ri + 1;
        }
        let ghost orig = value@;
        let ghost xs = first_row_len as int;
        let ghost ys = y_size as int;
        proof {
            lemma_centered_axis_counts(xs);
            lemma_centered_axis_counts(ys);
            assert(centered_region(xs, ys).area() == xs * ys);
            assert(xs * ys == ys * xs) by (nonlinear_arith);
        }
        let mut result = Grid::new(first_row_len, y_size);
        let ghost reg = result.region();
        proof {
            result.lemma_wf();
            assert forall|a: int, b: int| 0 <= a < ys && 0 <= b < xs implies #[trigger] result@[a
                * xs + b] is None by {
                assert(0 <= a * xs + b < xs * ys) by (nonlinear_arith)
                    requires
                        0 <= a < ys && 0 <= b < xs,
                ;
            }
        }
        let mut value = value;
        while value.len() > 0
            invariant
                result.wf(),
                result.region() == reg,
                reg == centered_region(xs, ys),
                reg.x_count() == xs,
                reg.y_count() == ys,
                reg.area() == xs * ys,
                result@.len() == reg.area(),
                xs >= 1,
                ys >= 1,
                value@.len() <= ys,
                orig.len() == ys,
                value@ == orig.take(value@.len() as int),
                forall|j: int| 0 <= j < ys ==> (#[trigger] orig[j])@.len() == xs,
                forall|a: int, b: int|
                    0 <= a < ys && 0 <= b < xs ==> #[trigger] result@[a * xs + b] == (if a
                        >= value@.len() {
                        orig[a]@[b]
                    } else {
                        None::<T>
                    }),
            decreases value@.len(),
        {
            let ghost rows_left0 = value@.len() as int;
            let mut row = value.pop().unwrap();
            let my = value.len();
            let ghost row0 = orig[my as int]@;
            proof {
                assert(row@ == row0);
                assert(row@ =~= row0.take(row0.len() as int));
                assert(value@ =~= orig.take(my as int));
            }
            while row.len() > 0
                invariant
                    result.wf(),
                    result.region() == reg,
                    reg == centered_region(xs, ys),
                    reg.x_count() == xs,
                    reg.y_count() == ys,
                    reg.area() == xs * ys,
                    result@.len() == reg.area(),
                    xs >= 1,
                    ys >= 1,
                    my < ys,
                    my + 1 == rows_left0,
                    orig.len() == ys,
                    row0 == orig[my as int]@,
                    row0.len() == xs,
                    row@.len() <= xs,
                    row@ == row0.take(row@.len() as int),
                    forall|j: int| 0 <= j < ys ==> (#[trigger] orig[j])@.len() == xs,
                    forall|a: int, b: int|
                        0 <= a < ys && 0 <= b < xs ==> #[trigger] result@[a * xs + b] == (if a
                            > my || (a == my && b >= row@.len()) {
                            orig[a]@[b]
                        } else {
                            None::<T>
                        }),
                decreases row@.len(),
            {
                let cell = row.pop().unwrap();
                let mx = row.len();
                proof {
                    result.lemma_wf();
                }
                let c = result.to_grid_like([mx, my]).unwrap();
                let ghost j_star = my as int * xs + mx as int;
                proof {
                    result.lemma_wf();
                    vstd::arithmetic::div_mod::lemma_fundamental_div_mod_converse(
                        j_star,
                        xs,
                        my as int,
                        mx as int,
                    );
                    assert(reg.contains(c) && reg.index_of(c) == j_star);
                    assert(0 <= j_star < xs * ys) by (nonlinear_arith)
                        requires
                            0 <= my < ys && 0 <= mx < xs && j_star == my as int * xs + mx as int,
                    ;
                    assert(cell == row0[mx as int]);
                }
                let ghost pre = result@;
                match cell {
                    Some(v) => {
                        let _ = result.store_element(&c, v);
                        proof {
                            assert(result@ == pre.update(j_star, Some(row0[mx as int])->0));
                            assert(result@.len() == pre.len());
                        }
                    },
                    None => {},
                }
                proof {
                    assert forall|a: int, b: int|
                        0 <= a < ys && 0 <= b < xs implies #[trigger] result@[a * xs + b] == (if a
                        > my || (a == my && b >= row@.len()) {
                        orig[a]@[b]
                    } else {
                        None::<T>
                    }) by {
                        let j = a * xs + b;
                        assert(0 <= j < xs * ys && (j == j_star ==> a == my && b == mx) && (a == my
                            && b == mx ==> j == j_star)) by (nonlinear_arith)
                            requires
                                0 <= a < ys && 0 <= b < xs && 0 <= my < ys && 0 <= mx < xs && j
                                    == a * xs + b && j_star == my as int * xs + mx as int,
                        ;
                        assert(pre[j] == (if a > my || (a == my && b >= mx + 1) {
                            orig[a]@[b]
                        } else {
                            None::<T>
                        }));
                        if a == my && b == mx {
                            if cell is Some {
                                assert(result@[j] == row0[mx as int]);
                                assert(row0[mx as int] == orig[a]@[b]);
                            } else {
                                assert(result@[j] == pre[j]);
                                assert(pre[j] is None);
                                assert(orig[a]@[b] == row0[mx as int]);
                                assert(row0[mx as int] is None);
                            }
                        } else {
                            assert(result@[j] == pre[j]);
                        }
                    }
                }
            }
        }
        proof {
            assert forall|i: int| 0 <= i < result@.len() implies result@[i] == orig[i / xs]@[i
                % xs] by {
                let a = i / xs;
                let b = i % xs;
                assert(0 <= b < xs && i == a * xs + b && 0 <= a < ys) by (nonlinear_arith)
                    requires
                        xs > 0 && 0 <= i < xs * ys && a == i / xs && b == i % xs,
                ;
                assert(result@[a * xs + b] == orig[a]@[b]);
            }
        }
                Ok(result)
    }
}

impl<T: Clone> Grid<T> {
    /// Create a grid from a text where each line is one row and a
    /// character mapping decides which characters occupy their cell:
    /// a mapped character becomes a clone of its value, an unmapped one
    /// an empty cell.  Lines of unequal length are refused.
    pub fn from_str_by_map(input: &str, map: &Vec<(char, T)>) -> (r: Result<
        Grid<T>,
        GridCreationError,
    >)
        requires
            lines_of(input@).len() >= 1,
            lines_of(input@)[0].len() >= 1,
            lines_of(input@).len() <= i32::MAX,
            lines_of(input@)[0].len() <= i32::MAX,
            lines_of(input@).len() * lines_of(input@)[0].len() <= usize::MAX,
        ensures
            (forall|ri: int|
                0 <= ri < lines_of(input@).len() ==> (#[trigger] lines_of(input@)[ri]).len()
                    == lines_of(input@)[0].len()) <==> r is Ok,
            r matches Ok(g) ==> ({
                let rows = lines_of(input@);
                let xs = rows[0].len() as int;
                let ys = rows.len() as int;
                &&& g.wf()
                &&& g.region() == centered_region(xs, ys)
                &&& g@.len() == xs * ys
                &&& forall|i: int|
                    0 <= i < g@.len() ==> ((g@[i] is Some <==> map_lookup(
                        map@,
                        rows[i / xs][i % xs],
                    ) is Some) && (g@[i] matches Some(v) ==> cloned::<T>(
                        map_lookup(map@, rows[i / xs][i % xs])->0,
                        v,
                    )))
            }),
    {
        let all = collect_chars(input);
        let ghost text = input@;
        let mut rows: Vec<Vec<char>> = Vec::new();
        let mut cur: Vec<char> = Vec::new();
        let mut i: usize = 0;
        proof {
            assert(text.take(0) =~= Seq::<char>::empty());
        }
        while i < all.len()
            invariant
                all@ == text,
                i <= text.len(),
                rows@.map_values(|v: Vec<char>| v@) == split_acc(text.take(i as int)).0,
                cur@ == split_acc(text.take(i as int)).1,
            decreases all@.len() - i,
        {
            proof {
                assert(text.take(i + 1).drop_last() =~= text.take(i as int));
                assert(text.take(i + 1).last() == text[i as int]);
            }
            let c = all[i];
            let ghost rows_before = rows@;
            if c == '\n' {
                let ghost cur_before = cur@;
                if cur.len() > 0 && cur[cur.len() - 1] == '\r' {
                    let _ = cur.pop();
                }
                proof {
                    assert(cur@ =~= strip_cr(cur_before));
                }
                rows.push(cur);
                cur = Vec::new();
                proof {
                    assert(rows@.map_values(|v: Vec<char>| v@) =~= rows_before.map_values(
                        |v: Vec<char>| v@,
                    ).push(strip_cr(split_acc(text.take(i as int)).1)));
                }
            } else {
                cur.push(c);
            }
            i = i + 1;
        }
        proof {
            assert(text.take(text.len() as int) =~= text);
        }
        let ghost rows_before = rows@;
        if cur.len() > 0 {
            rows.push(cur);
            proof {
                assert(rows@.map_values(|v: Vec<char>| v@) =~= rows_before.map_values(
                    |v: Vec<char>| v@,
                ).push(split_acc(text).1));
            }
        }
        proof {
            assert(rows@.map_values(|v: Vec<char>| v@) == lines_of(text));
        }
        let ghost spec_rows = lines_of(text);
        let mut data: Vec<Vec<Option<T>>> = Vec::new();
        let mut ri: usize = 0;
        let row_total = rows.len();
        while ri < row_total
            invariant
                row_total == rows@.len(),
                rows@.map_values(|v: Vec<char>| v@) == spec_rows,
                ri <= row_total,
                data@.len() == ri,
                forall|j: int|
                    0 <= j < ri ==> ((#[trigger] data@[j])@.len() == spec_rows[j].len() && forall|
                        k: int,
                    |
                        0 <= k < data@[j]@.len() ==> (((#[trigger] data@[j]@[k]) is Some
                            <==> map_lookup(map@, spec_rows[j][k]) is Some) && (
                        data@[j]@[k] matches Some(v) ==> cloned::<T>(
                            map_lookup(map@, spec_rows[j][k])->0,
                            v,
                        )))),
            decreases row_total - ri,
        {
            let row = &rows[ri];
            let mut out_row: Vec<Option<T>> = Vec::new();
            let mut k: usize = 0;
            while k < row.len()
                invariant
                    row@ == rows@[ri as int]@,
                    ri < rows@.len(),
                    rows@.map_values(|v: Vec<char>| v@) == spec_rows,
                    k <= row@.len(),
                    out_row@.len() == k,
                    forall|k2: int|
                        0 <= k2 < k ==> (((#[trigger] out_row@[k2]) is Some <==> map_lookup(
                            map@,
                            spec_rows[ri as int][k2],
                        ) is Some) && (out_row@[k2] matches Some(v) ==> cloned::<T>(
                            map_lookup(map@, spec_rows[ri as int][k2])->0,
                            v,
                        ))),
                decreases row@.len() - k,
            {
                let looked = lookup_char(map, row[k]);
                out_row.push(looked);
                k = k + 1;
            }
            data.push(out_row);
            ri = ri + 1;
        }
        let first_len = rows[0].len();
        let mut all_equal = true;
        let mut ri2: usize = 1;
        while ri2 < row_total
            invariant
                row_total == rows@.len(),
                rows@.map_values(|v: Vec<char>| v@) == spec_rows,
                first_len == spec_rows[0].len(),
                1 <= ri2 <= row_total,
                all_equal <==> forall|j: int|
                    0 <= j < ri2 ==> (#[trigger] spec_rows[j]).len() == spec_rows[0].len(),
            decreases row_total - ri2,
        {
            proof {
                assert(spec_rows[ri2 as int] == rows@[ri2 as int]@);
            }
            if rows[ri2].len() != first_len {
                all_equal = false;
            }
            ri2 = ri2 + 1;
        }
        if !all_equal {
            return Err(GridCreationError {  });
        }
        let ghost data_view = data@;
        let result = match Grid::<T>::try_from(data) {
            Ok(g) => g,
            Err(_) => {
                proof {
                    assert(false);
                }
                return Err(GridCreationError {  });
            },
        };
        proof {
            let xs = spec_rows[0].len() as int;
            assert forall|i: int| 0 <= i < result@.len() implies ((result@[i] is Some
                <==> map_lookup(map@, spec_rows[i / xs][i % xs]) is Some) && (
            result@[i] matches Some(v) ==> cloned::<T>(
                map_lookup(map@, spec_rows[i / xs][i % xs])->0,
                v,
            ))) by {
                assert(0 <= i % xs < xs && 0 <= i / xs && i == (i / xs) * xs + i % xs)
                    by (nonlinear_arith)
                    requires
                        xs > 0 && 0 <= i,
                ;
                assert(i / xs < spec_rows.len() as int) by (nonlinear_arith)
                    requires
                        xs > 0 && 0 <= i < xs * spec_rows.len() && i == (i / xs) * xs + i % xs && 0
                            <= i % xs < xs,
                ;
                assert(result@[i] == data_view[i / xs]@[i % xs]);
            }
        }
        Ok(result)
    }
}

/// The characters of a text, in order.
fn collect_chars(input: &str) -> (r: Vec<char>)
    ensures
        r@ == input@,
{
    broadcast use vstd::string::axiom_spec_iter;
    broadcast use vstd::string::next_postcondition;

    let ghost text = input@;
    let mut chars = input.chars();
    let mut out: Vec<char> = Vec::new();
    proof {
        assert(text.take(0) =~= Seq::<char>::empty());
        assert(text.skip(0) =~= text);
    }
    loop
        invariant
            out@.len() <= text.len(),
            out@ == text.take(out@.len() as int),
            vstd::std_specs::iter::IteratorSpec::remaining(&chars) == text.skip(
                out@.len() as int,
            ),
        ensures
            out@ == text,
        decreases text.len() - out@.len(),
    {
        let ghost sofar = out@.len() as int;
        match chars.next() {
            Some(c) => {
                proof {
                    assert(text.skip(sofar)[0] == text[sofar]);
                    assert(text.skip(sofar).drop_first() =~= text.skip(sofar + 1));
                    assert(text.take(sofar + 1) =~= text.take(sofar).push(text[sofar]));
                }
                out.push(c);
            },
            None => {
                proof {
                    assert(text.skip(sofar).len() == 0);
                    assert(out@ =~= text);
                }
                break ;
            },
        }
    }
    out
}

/// The first value a character mapping assigns to `c`, cloned; `None`
/// when no entry names it.
fn lookup_char<T: Clone>(map: &Vec<(char, T)>, c: char) -> (r: Option<T>)
    ensures
        r is Some <==> map_lookup(map@, c) is Some,
        r matches Some(v) ==> cloned::<T>(map_lookup(map@, c)->0, v),
{
    let mut i: usize = 0;
    proof {
        assert(map@.skip(0) =~= map@);
    }
    while i < map.len()
        invariant
            i <= map@.len(),
            map_lookup(map@, c) == map_lookup(map@.skip(i as int), c),
            forall|j: int| 0 <= j < i ==> (#[trigger] map@[j]).0 != c,
        decreases map@.len() - i,
    {
        proof {
            assert(map@.skip(i as int)[0] == map@[i as int]);
            assert(map@.skip(i as int).drop_first() =~= map@.skip(i + 1));
        }
        if map[i].0 == c {
            let cloned_value = map[i].1.clone();
            return Some(cloned_value);
        }
        i = i + 1;
    }
    proof {
        assert(map@.skip(map@.len() as int).len() == 0);
    }
    None
}

} // verus!
