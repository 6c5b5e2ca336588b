//! The interpolation engine: segment locator, coefficient reuse, and the
//! top-level entry point.
//!
//! For each query time, taken in non-decreasing order, a cursor `j` advances
//! forward through the knot table (never backward) until the query is
//! located: an exact hit on knot `j`'s time, a bracketing segment
//! `times[j] < q < times[j+1]`, or — for queries outside the table — the
//! cursor runs to the last knot and the output row stays all zero.  The
//! spec function [`scan`] is the exact model of that loop, and every
//! contract below is stated over it, so out-of-range and non-monotonic
//! query sequences have fully pinned-down (if unhelpful) results: their
//! rows are the zero rows the scan structure produces.
//!
//! The Hermite coefficients are cached in a [`Spline`] and recomputed only
//! when the cursor moved since they were last built; [`cache_inv`] is the
//! invariant tying the cache to the cursor.

use vstd::prelude::*;
use crate::num::{in_range, Frac};
use crate::knot::Point;
use crate::spline::{Spline, coeff_in_range, eval_den, hermite_num, lemma_coeff_bounds};

verus! {

/// Where the forward scan leaves one query.
pub ghost enum Located {
    /// The query time equals knot `j`'s time (`j` before the last knot).
    Hit { j: int },
    /// The query time lies strictly inside segment `j`:
    /// `times[j] < q < times[j+1]`.
    Inside { j: int },
    /// The scan ran to the last knot without locating the query.
    Missed,
}

/// The forward scan for one query `q`, starting at cursor `j`: the exact
/// model of the locator loop.  Advances one knot at a time until an exact
/// hit, a bracketing segment, or the last knot stops it.
pub open spec fn scan(times: Seq<i64>, q: i64, j: int) -> Located
    decreases times.len() - j,
{
    if j >= times.len() - 1 {
        Located::Missed
    } else if times[j] == q {
        Located::Hit { j }
    } else if times[j] < q && q < times[j + 1] {
        Located::Inside { j }
    } else {
        scan(times, q, j + 1)
    }
}

/// The cursor position after the scan for `q` that started at cursor `j`.
/// The cursor never rewinds: it stays where a hit or a bracket stopped it,
/// and it sticks at the last knot after a missed query.
pub open spec fn next_cursor(times: Seq<i64>, q: i64, j: int) -> int
    decreases times.len() - j,
{
    if j >= times.len() - 1 {
        j
    } else if times[j] == q {
        j
    } else if times[j] < q && q < times[j + 1] {
        j
    } else {
        next_cursor(times, q, j + 1)
    }
}

/// The cursor position before query `i` of the sequence `queries`: the
/// scans of the earlier queries, folded from the initial cursor 0.
pub open spec fn cursor_at(times: Seq<i64>, queries: Seq<i64>, i: int) -> int
    decreases i,
{
    if i <= 0 {
        0
    } else {
        next_cursor(times, queries[i - 1], cursor_at(times, queries, i - 1))
    }
}

/// Numerator of output entry `d` for one query `q` scanned from cursor
/// `j0`: the knot value itself on an exact hit, the Hermite numerator of
/// the bracketing segment inside one, and zero for a missed query.
pub open spec fn entry_num(
    times: Seq<i64>,
    values: Seq<Vec<i64>>,
    slopes: Seq<Vec<i64>>,
    q: i64,
    j0: int,
    d: int,
) -> int {
    match scan(times, q, j0) {
        Located::Hit { j } => values[j]@[d] as int,
        Located::Inside { j } => hermite_num(
            times[j], times[j + 1],
            values[j]@[d], values[j + 1]@[d],
            slopes[j]@[d], slopes[j + 1]@[d],
            q,
        ),
        Located::Missed => 0,
    }
}

/// Denominator of an output entry: `(t2 - t1)^3` of the bracketing segment,
/// and 1 for exact hits and missed queries (their rows are whole numbers).
pub open spec fn entry_den(times: Seq<i64>, q: i64, j0: int) -> int {
    match scan(times, q, j0) {
        Located::Hit { .. } => 1,
        Located::Inside { j } => eval_den(times[j], times[j + 1]),
        Located::Missed => 1,
    }
}

/// A well-formed knot table: at least two knots, one value row and one
/// slope row per knot, every row of dimension `dim`, every scalar on the
/// bounded grid.  Strict monotonicity of the times is *not* part of this:
/// the engine never checks it, and its contracts hold without it.
pub open spec fn table_wf(
    times: Seq<i64>,
    values: Seq<Vec<i64>>,
    slopes: Seq<Vec<i64>>,
    dim: nat,
) -> bool {
    &&& times.len() >= 2
    &&& values.len() == times.len()
    &&& slopes.len() == times.len()
    &&& forall|j: int| 0 <= j < times.len() ==> in_range(times[j])
    &&& forall|j: int| 0 <= j < values.len() ==> values[j]@.len() == dim
    &&& forall|j: int| 0 <= j < slopes.len() ==> slopes[j]@.len() == dim
    &&& forall|j: int, d: int| 0 <= j < values.len() && 0 <= d < dim ==> in_range(values[j]@[d])
    &&& forall|j: int, d: int| 0 <= j < slopes.len() && 0 <= d < dim ==> in_range(slopes[j]@[d])
}

/// The coefficient cache is valid for the cursor: whenever the rebuild
/// flag `upd` is clear, the cache holds exactly knots `j` and `j+1` and
/// the coefficients derived from them.  While `upd` is set the cache is
/// arbitrary — it is rebuilt before its next use.
pub open spec fn cache_inv(
    s: Spline,
    upd: bool,
    j: int,
    times: Seq<i64>,
    values: Seq<Vec<i64>>,
    slopes: Seq<Vec<i64>>,
) -> bool {
    !upd ==> {
        &&& 0 <= j < times.len() - 1
        &&& s.p1.t == times[j]
        &&& s.p2.t == times[j + 1]
        &&& s.p1.x@ == values[j]@
        &&& s.p2.x@ == values[j + 1]@
        &&& s.p1.k@ == slopes[j]@
        &&& s.p2.k@ == slopes[j + 1]@
        &&& s.wf()
    }
}

/// An all-zero output row of `dim` exact zeros.
pub fn zero_row(dim: usize) -> (r: Vec<Frac>)
    ensures
        r@.len() == dim,
        forall|d: int| 0 <= d < dim ==> r@[d].num == 0,
        forall|d: int| 0 <= d < dim ==> r@[d].den == 1,
{
    let mut r = Vec::<Frac>::new();
    let mut i: usize = 0;
    while i < dim
        invariant
            i <= dim,
            r@.len() == i,
            forall|d: int| 0 <= d < i ==> r@[d].num == 0,
            forall|d: int| 0 <= d < i ==> r@[d].den == 1,
        decreases dim - i,
    {
        r.push(Frac { num: 0, den: 1 });
        i = i + 1;
    }
    r
}

/// A knot's value row as whole-number fractions: the output of an exact hit.
pub fn whole_row(v: &Vec<i64>) -> (r: Vec<Frac>)
    ensures
        r@.len() == v@.len(),
        forall|d: int| 0 <= d < v@.len() ==> r@[d].num == v@[d] as int,
        forall|d: int| 0 <= d < v@.len() ==> r@[d].den == 1,
{
    let mut r = Vec::<Frac>::new();
    let mut i: usize = 0;
    while i < v.len()
        invariant
            i <= v@.len(),
            r@.len() == i,
            forall|d: int| 0 <= d < i ==> r@[d].num == v@[d] as int,
            forall|d: int| 0 <= d < i ==> r@[d].den == 1,
        decreases v@.len() - i,
    {
        r.push(Frac { num: v[i] as i128, den: 1 });
        i = i + 1;
    }
    r
}

/// A copy of one knot row, handed to the coefficient builder.
pub fn copy_row(v: &Vec<i64>) -> (r: Vec<i64>)
    ensures
        r@ == v@,
{
    let mut r = Vec::<i64>::new();
    let mut i: usize = 0;
    while i < v.len()
        invariant
            i <= v@.len(),
            r@ == v@.subrange(0, i as int),
        decreases v@.len() - i,
    {
        r.push(v[i]);
        i = i + 1;
    }
    proof {
        assert(v@.subrange(0, v@.len() as int) =~= v@);
    }
    r
}

/// Locate one query time and produce its output row.
///
/// Advances the cursor `*j` forward per [`scan`], rebuilds the coefficient
/// cache only if the cursor has moved since the cache was last built
/// (`*upd` set), and evaluates the Hermite polynomial — or copies the knot
/// row on an exact hit, or leaves the zero row for a missed query.
pub fn locate_and_eval(
    times: &Vec<i64>,
    values: &Vec<Vec<i64>>,
    slopes: &Vec<Vec<i64>>,
    q: i64,
    dim: usize,
    j: &mut usize,
    upd: &mut bool,
    s: &mut Spline,
) -> (row: Vec<Frac>)
    requires
        table_wf(times@, values@, slopes@, dim as nat),
        in_range(q),
        *old(j) <= times@.len() - 1,
        cache_inv(*old(s), *old(upd), *old(j) as int, times@, values@, slopes@),
    ensures
        *final(j) == next_cursor(times@, q, *old(j) as int),
        *old(j) <= *final(j) <= times@.len() - 1,
        cache_inv(*final(s), *final(upd), *final(j) as int, times@, values@, slopes@),
        row@.len() == dim,
        forall|d: int| 0 <= d < dim ==>
            row@[d].num == entry_num(times@, values@, slopes@, q, *old(j) as int, d),
        forall|d: int| 0 <= d < dim ==> row@[d].den == entry_den(times@, q, *old(j) as int),
{
    let ghost j0: int = *j as int;
    let n: usize = times.len();
    let mut row: Vec<Frac> = zero_row(dim);
    while *j < n - 1
        invariant_except_break
            scan(times@, q, j0) == scan(times@, q, *j as int),
            next_cursor(times@, q, j0) == next_cursor(times@, q, *j as int),
            row@.len() == dim,
            forall|d: int| 0 <= d < dim ==> row@[d].num == 0,
            forall|d: int| 0 <= d < dim ==> row@[d].den == 1,
        invariant
            n == times@.len(),
            table_wf(times@, values@, slopes@, dim as nat),
            in_range(q),
            j0 <= *j <= n - 1,
            cache_inv(*s, *upd, *j as int, times@, values@, slopes@),
        ensures
            *j == next_cursor(times@, q, j0),
            cache_inv(*s, *upd, *j as int, times@, values@, slopes@),
            row@.len() == dim,
            forall|d: int| 0 <= d < dim ==>
                row@[d].num == entry_num(times@, values@, slopes@, q, j0, d),
            forall|d: int| 0 <= d < dim ==> row@[d].den == entry_den(times@, q, j0),
        decreases n - 1 - *j,
    {
        if times[*j] == q {
            row = whole_row(&values[*j]);
            break;
        } else if times[*j] < q && q < times[*j + 1] {
            if *upd {
                let p1 = Point::create(times[*j], copy_row(&values[*j]), copy_row(&slopes[*j]));
                let p2 = Point::create(
                    times[*j + 1],
                    copy_row(&values[*j + 1]),
                    copy_row(&slopes[*j + 1]),
                );
                s.update(p1, p2);
                *upd = false;
            }
            proof {
                assert forall|d: int| 0 <= d < s.a@.len() implies coeff_in_range(s.a@[d]) by {
                    lemma_coeff_bounds(
                        s.p1.t, s.p2.t,
                        s.p1.x@[d], s.p2.x@[d],
                        s.p1.k@[d], s.p2.k@[d],
                    );
                }
                assert forall|d: int| 0 <= d < s.b@.len() implies coeff_in_range(s.b@[d]) by {
                    lemma_coeff_bounds(
                        s.p1.t, s.p2.t,
                        s.p1.x@[d], s.p2.x@[d],
                        s.p1.k@[d], s.p2.k@[d],
                    );
                }
            }
            row = s.evaluate(q);
            break;
        }
        *j = *j + 1;
        *upd = true;
    }
    row
}

/// Piecewise cubic Hermite interpolation of the knot table
/// `data = (times, values, slopes)` at the query times `t`.
///
/// One output row per query time, each row of the table's dimension.  The
/// contract pins every entry to the forward-scan model: row `i` is knot
/// `j`'s value row when the scan from the running cursor hits knot `j`
/// exactly, the exact Hermite fraction of the bracketing segment when the
/// scan brackets the query, and all zero when the scan misses (a query
/// outside the table, or one out of order once the cursor has passed it —
/// the cursor never rewinds).
pub fn cubic_spline_1d_interpolate(
    t: Vec<i64>,
    data: (Vec<i64>, Vec<Vec<i64>>, Vec<Vec<i64>>),
) -> (out: Vec<Vec<Frac>>)
    requires
        table_wf(data.0@, data.1@, data.2@, data.1@[0]@.len()),
        forall|i: int| 0 <= i < t@.len() ==> in_range(t@[i]),
    ensures
        out@.len() == t@.len(),
        forall|i: int| 0 <= i < out@.len() ==> out@[i]@.len() == data.1@[0]@.len(),
        forall|i: int, d: int|
            0 <= i < out@.len() && 0 <= d < data.1@[0]@.len() ==> out@[i]@[d].num
                == entry_num(data.0@, data.1@, data.2@, t@[i], cursor_at(data.0@, t@, i), d),
        forall|i: int, d: int|
            0 <= i < out@.len() && 0 <= d < data.1@[0]@.len() ==> out@[i]@[d].den
                == entry_den(data.0@, t@[i], cursor_at(data.0@, t@, i)),
{
    let (times, values, slopes) = data;
    let dim: usize = values[0].len();
    let m: usize = t.len();
    let mut out = Vec::<Vec<Frac>>::new();
    let mut s: Spline = Spline::new();
    let mut upd: bool = true;
    let mut j: usize = 0;
    let mut i: usize = 0;
    while i < m
        invariant
            m == t@.len(),
            i <= m,
            table_wf(times@, values@, slopes@, dim as nat),
            forall|q: int| 0 <= q < t@.len() ==> in_range(t@[q]),
            j <= times@.len() - 1,
            j == cursor_at(times@, t@, i as int),
            cache_inv(s, upd, j as int, times@, values@, slopes@),
            out@.len() == i,
            forall|i2: int| 0 <= i2 < i ==> out@[i2]@.len() == dim,
            forall|i2: int, d: int|
                0 <= i2 < i && 0 <= d < dim ==> out@[i2]@[d].num
                    == entry_num(times@, values@, slopes@, t@[i2], cursor_at(times@, t@, i2), d),
            forall|i2: int, d: int|
                0 <= i2 < i && 0 <= d < dim ==> out@[i2]@[d].den
                    == entry_den(times@, t@[i2], cursor_at(times@, t@, i2)),
        decreases m - i,
    {
        let q: i64 = t[i];
        let row = locate_and_eval(&times, &values, &slopes, q, dim, &mut j, &mut upd, &mut s);
        out.push(row);
        i = i + 1;
    }
    out
}

} // verus!
