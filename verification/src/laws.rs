//! The laws of the interpolant, proved once and for all over the spec
//! model: exact matches return the knot row, the Hermite polynomial meets
//! each knot's value and slope at the segment ends, a segment already
//! located is reused without moving the cursor, and each output dimension
//! depends only on its own column of the knot data.

use vstd::prelude::*;
use crate::interp::{Located, scan, next_cursor, cursor_at, entry_num, entry_den};
use crate::spline::{coeff_a, coeff_b, eval_den, hermite_num};

verus! {

/// Knot times as the engine assumes them: strictly increasing.
pub open spec fn strictly_increasing(times: Seq<i64>) -> bool {
    forall|a: int, b: int| 0 <= a < b < times.len() ==> times[a] < times[b]
}

/// What one scan does to the cursor: it never rewinds, never passes the
/// last knot, stops exactly on the knot it hits or on the lower knot of
/// the segment that brackets the query, and runs to the last knot when
/// the query is missed.
pub proof fn lemma_scan_bounds(times: Seq<i64>, q: i64, j0: int)
    requires
        0 <= j0 <= times.len() - 1,
    ensures
        j0 <= next_cursor(times, q, j0) <= times.len() - 1,
        scan(times, q, j0) matches Located::Hit { j } ==>
            j == next_cursor(times, q, j0) && j0 <= j < times.len() - 1 && times[j] == q,
        scan(times, q, j0) matches Located::Inside { j } ==>
            j == next_cursor(times, q, j0) && j0 <= j < times.len() - 1
            && times[j] < q && q < times[j + 1],
        scan(times, q, j0) is Missed ==> next_cursor(times, q, j0) == times.len() - 1,
    decreases times.len() - j0,
{
    if j0 < times.len() - 1 && times[j0] != q && !(times[j0] < q && q < times[j0 + 1]) {
        lemma_scan_bounds(times, q, j0 + 1);
    }
}

/// Exact-match law: on a strictly increasing knot table, scanning for knot
/// `jk`'s own time from any cursor at or before `jk` hits that knot
/// exactly, so the output row is the knot's value row itself — the
/// polynomial is bypassed and the entry is the whole number
/// `values[jk][d]` over 1.
pub proof fn lemma_exact_match(
    times: Seq<i64>,
    values: Seq<Vec<i64>>,
    slopes: Seq<Vec<i64>>,
    j0: int,
    jk: int,
    d: int,
)
    requires
        strictly_increasing(times),
        0 <= j0 <= jk < times.len() - 1,
    ensures
        scan(times, times[jk], j0) == (Located::Hit { j: jk }),
        next_cursor(times, times[jk], j0) == jk,
        entry_num(times, values, slopes, times[jk], j0, d) == values[jk]@[d],
        entry_den(times, times[jk], j0) == 1,
    decreases jk - j0,
{
    if j0 < jk {
        assert(times[j0] < times[jk]);
        assert(times[j0 + 1] <= times[jk]);
        lemma_exact_match(times, values, slopes, j0 + 1, jk, d);
    }
}

/// The cursor's reach under one in-range query: scanning `q` with
/// `times[c] <= q <= times[jk]` from a cursor `c <= jk` stops at or before
/// knot `jk`, on a knot whose time is at most `q`.
pub proof fn lemma_scan_stays(times: Seq<i64>, q: i64, c: int, jk: int)
    requires
        strictly_increasing(times),
        0 <= c <= jk < times.len() - 1,
        times[c] <= q,
        q <= times[jk],
    ensures
        c <= next_cursor(times, q, c) <= jk,
        times[next_cursor(times, q, c)] <= q,
    decreases jk - c,
{
    if times[c] == q {
    } else if times[c] < q && q < times[c + 1] {
    } else {
        assert(times[jk] < times[jk + 1]);
        lemma_scan_stays(times, q, c + 1, jk);
    }
}

/// Under a non-decreasing query prefix that starts at or after the first
/// knot and stays at or before knot `jk`, the cursor before query `i` has
/// not passed knot `jk`, and it sits on a knot no later than query `i`.
pub proof fn lemma_cursor_bounded(times: Seq<i64>, queries: Seq<i64>, i: int, jk: int)
    requires
        strictly_increasing(times),
        0 <= jk < times.len() - 1,
        0 <= i < queries.len(),
        forall|p1: int, p2: int| 0 <= p1 <= p2 <= i ==> queries[p1] <= queries[p2],
        forall|p: int| 0 <= p <= i ==> times[0] <= queries[p],
        queries[i] <= times[jk],
    ensures
        0 <= cursor_at(times, queries, i) <= jk,
        times[cursor_at(times, queries, i)] <= queries[i],
    decreases i,
{
    if i > 0 {
        lemma_cursor_bounded(times, queries, i - 1, jk);
        lemma_scan_stays(times, queries[i - 1], cursor_at(times, queries, i - 1), jk);
    }
}

/// Exact-match law for a whole call: in a strictly increasing knot table
/// queried at a non-decreasing, in-range sequence, a query equal to knot
/// `jk`'s time (before the last knot) produces exactly that knot's value
/// row — the interpolation contract reduces that row to `values[jk]`,
/// whole numbers over 1.
pub proof fn lemma_exact_match_in_sequence(
    times: Seq<i64>,
    values: Seq<Vec<i64>>,
    slopes: Seq<Vec<i64>>,
    queries: Seq<i64>,
    i: int,
    jk: int,
    d: int,
)
    requires
        strictly_increasing(times),
        0 <= jk < times.len() - 1,
        0 <= i < queries.len(),
        forall|p1: int, p2: int| 0 <= p1 <= p2 <= i ==> queries[p1] <= queries[p2],
        forall|p: int| 0 <= p <= i ==> times[0] <= queries[p],
        queries[i] == times[jk],
    ensures
        entry_num(times, values, slopes, queries[i], cursor_at(times, queries, i), d)
            == values[jk]@[d],
        entry_den(times, queries[i], cursor_at(times, queries, i)) == 1,
{
    lemma_cursor_bounded(times, queries, i, jk);
    lemma_exact_match(times, values, slopes, cursor_at(times, queries, i), jk, d);
}

/// Endpoint-continuity law, lower end: at the lower knot's own time the
/// Hermite numerator is exactly `x1 * (t2-t1)^3`, so the interpolant
/// equals the knot value `x1` there.  Together with the upper-end law on
/// the previous segment this makes the interpolant continuous at every
/// interior knot.
pub proof fn lemma_left_endpoint(t1: i64, t2: i64, x1: i64, x2: i64, k1: i64, k2: i64)
    by (nonlinear_arith)
    ensures
        hermite_num(t1, t2, x1, x2, k1, k2, t1) == x1 * eval_den(t1, t2),
{
}

/// Endpoint-continuity law, upper end: at the upper knot's own time the
/// Hermite numerator is exactly `x2 * (t2-t1)^3`, so the interpolant
/// equals the knot value `x2` there.
pub proof fn lemma_right_endpoint(t1: i64, t2: i64, x1: i64, x2: i64, k1: i64, k2: i64)
    by (nonlinear_arith)
    ensures
        hermite_num(t1, t2, x1, x2, k1, k2, t2) == x2 * eval_den(t1, t2),
{
}

/// Derivative-consistency law, lower end: as a polynomial in `u = t - t1`
/// the Hermite numerator is
/// `x1*h^3 + k1*h^3*u + u^2 * (h*(b - 2a) - u*(b - a))`.
/// Dividing by the denominator `h^3`, the interpolant is
/// `x1 + k1*(t - t1) + O((t - t1)^2)`: its derivative with respect to
/// time at the lower knot is exactly the supplied slope `k1`.
pub proof fn lemma_slope_at_left_knot(t1: i64, t2: i64, x1: i64, x2: i64, k1: i64, k2: i64, t: i64)
    ensures
        hermite_num(t1, t2, x1, x2, k1, k2, t)
            == x1 * eval_den(t1, t2) + k1 * eval_den(t1, t2) * (t - t1)
                + (t - t1) * (t - t1)
                    * ((t2 - t1) * (coeff_b(t1, t2, x1, x2, k2) - 2 * coeff_a(t1, t2, x1, x2, k1))
                        - (t - t1) * (coeff_b(t1, t2, x1, x2, k2) - coeff_a(t1, t2, x1, x2, k1))),
{
    let h: int = t2 - t1;
    let u: int = t - t1;
    let v: int = t2 - t;
    let a: int = coeff_a(t1, t2, x1, x2, k1);
    let b: int = coeff_b(t1, t2, x1, x2, k2);
    assert(h * h * (v * x1 + u * x2) == x1 * (h * h * h) + (x2 - x1) * (h * h) * u)
        by (nonlinear_arith)
        requires v == h - u;
    assert(u * v * (v * a + u * b) == a * (u * (v * v)) + b * (v * (u * u))) by (nonlinear_arith);
    assert(v * v == h * h - 2 * (h * u) + u * u) by (nonlinear_arith)
        requires v == h - u;
    assert(a * (u * (h * h - 2 * (h * u) + u * u))
            == a * (h * h) * u - 2 * (a * (h * (u * u))) + a * (u * (u * u))) by (nonlinear_arith);
    assert(v * (u * u) == h * (u * u) - u * (u * u)) by (nonlinear_arith)
        requires v == h - u;
    assert(b * (h * (u * u) - u * (u * u)) == b * (h * (u * u)) - b * (u * (u * u)))
        by (nonlinear_arith);
    assert(u * u * (h * (b - 2 * a) - u * (b - a))
            == b * (h * (u * u)) - 2 * (a * (h * (u * u))) - b * (u * (u * u)) + a * (u * (u * u)))
        by (nonlinear_arith);
    assert((x2 - x1) * (h * h) * u + a * (h * h) * u == (k1 * h) * (h * h) * u)
        by (nonlinear_arith)
        requires a == k1 * h - (x2 - x1);
    assert((k1 * h) * (h * h) * u == k1 * (h * h * h) * u) by (nonlinear_arith);
}

/// Derivative-consistency law, upper end: as a polynomial in `v = t2 - t`
/// the Hermite numerator is
/// `x2*h^3 - k2*h^3*v + v^2 * (h*(a - 2b) - v*(a - b))`.
/// Dividing by `h^3`, the interpolant is `x2 - k2*(t2 - t) + O((t2 - t)^2)`:
/// its derivative with respect to time at the upper knot is exactly the
/// supplied slope `k2`.  With the lower-end law on the next segment, the
/// derivative from either side of a shared knot is that knot's slope.
pub proof fn lemma_slope_at_right_knot(t1: i64, t2: i64, x1: i64, x2: i64, k1: i64, k2: i64, t: i64)
    ensures
        hermite_num(t1, t2, x1, x2, k1, k2, t)
            == x2 * eval_den(t1, t2) - k2 * eval_den(t1, t2) * (t2 - t)
                + (t2 - t) * (t2 - t)
                    * ((t2 - t1) * (coeff_a(t1, t2, x1, x2, k1) - 2 * coeff_b(t1, t2, x1, x2, k2))
                        - (t2 - t) * (coeff_a(t1, t2, x1, x2, k1) - coeff_b(t1, t2, x1, x2, k2))),
{
    let h: int = t2 - t1;
    let u: int = t - t1;
    let v: int = t2 - t;
    let a: int = coeff_a(t1, t2, x1, x2, k1);
    let b: int = coeff_b(t1, t2, x1, x2, k2);
    assert(h * h * (v * x1 + u * x2) == x2 * (h * h * h) + (x1 - x2) * (h * h) * v)
        by (nonlinear_arith)
        requires u == h - v;
    assert(u * v * (v * a + u * b) == a * (u * (v * v)) + b * (v * (u * u))) by (nonlinear_arith);
    assert(u * u == h * h - 2 * (h * v) + v * v) by (nonlinear_arith)
        requires u == h - v;
    assert(b * (v * (h * h - 2 * (h * v) + v * v))
            == b * (h * h) * v - 2 * (b * (h * (v * v))) + b * (v * (v * v))) by (nonlinear_arith);
    assert(u * (v * v) == h * (v * v) - v * (v * v)) by (nonlinear_arith)
        requires u == h - v;
    assert(a * (h * (v * v) - v * (v * v)) == a * (h * (v * v)) - a * (v * (v * v)))
        by (nonlinear_arith);
    assert(v * v * (h * (a - 2 * b) - v * (a - b))
            == a * (h * (v * v)) - 2 * (b * (h * (v * v))) - a * (v * (v * v)) + b * (v * (v * v)))
        by (nonlinear_arith);
    assert((x1 - x2) * (h * h) * v + b * (h * h) * v == ((-k2) * h) * (h * h) * v)
        by (nonlinear_arith)
        requires b == (-k2) * h + (x2 - x1);
    assert(((-k2) * h) * (h * h) * v == -(k2 * (h * h * h) * v)) by (nonlinear_arith);
}

/// Segment-reuse law: once a query is bracketed by segment `j`, a further
/// query strictly inside the same segment is located at once, with the
/// cursor not moving at all.  In the engine a coefficient rebuild happens
/// only after the cursor advances, so consecutive queries inside one
/// segment reuse the cached `a`, `b`: the coefficients are built at most
/// once per distinct segment the cursor visits.
pub proof fn lemma_segment_reuse(times: Seq<i64>, q1: i64, q2: i64, j0: int, j: int)
    requires
        0 <= j0 <= times.len() - 1,
        scan(times, q1, j0) == (Located::Inside { j }),
        times[j] < q2 && q2 < times[j + 1],
    ensures
        next_cursor(times, q1, j0) == j,
        scan(times, q2, j) == (Located::Inside { j }),
        next_cursor(times, q2, j) == j,
{
    lemma_scan_bounds(times, q1, j0);
}

/// Dimension-independence law: entry `d` of an output row depends only on
/// the knot times and on column `d` of the value and slope tables; the
/// other columns may differ arbitrarily between two tables without
/// changing it.  The cursor itself reads only the times, so this extends
/// entrywise to whole query sequences.
pub proof fn lemma_dimension_independence(
    times: Seq<i64>,
    values1: Seq<Vec<i64>>,
    slopes1: Seq<Vec<i64>>,
    values2: Seq<Vec<i64>>,
    slopes2: Seq<Vec<i64>>,
    q: i64,
    j0: int,
    d: int,
)
    requires
        0 <= j0 <= times.len() - 1,
        values1.len() >= times.len(),
        slopes1.len() >= times.len(),
        forall|jk: int| 0 <= jk < times.len() ==> values1[jk]@[d] == values2[jk]@[d],
        forall|jk: int| 0 <= jk < times.len() ==> slopes1[jk]@[d] == slopes2[jk]@[d],
    ensures
        entry_num(times, values1, slopes1, q, j0, d) == entry_num(times, values2, slopes2, q, j0, d),
{
    lemma_scan_bounds(times, q, j0);
}

} // verus!
