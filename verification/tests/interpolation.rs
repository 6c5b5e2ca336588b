// Behavioral tests of the interpolation engine on the integer grid.
//
// The engine works on integer times/values/slopes and returns exact
// fractions, so expected values can be written down exactly.  Where a grid
// is needed for a fractional query time, the knot times are scaled (e.g. by
// 2) and the query placed between them.

use tiamat::interp::cubic_spline_1d_interpolate;
use tiamat::num::Frac;

// Knots at t = [0, 1] (scaled by 2 to [0, 2]), values [[0,10],[1,0]], zero
// slopes; query at the midpoint.  The midpoint of a zero-slope Hermite
// cubic is the linear midpoint: [0.5, 5.0], here 4/8 and 40/8.
#[test]
fn midpoint_of_zero_slope_segment_is_linear_midpoint() {
    let t = vec![1i64];
    let times = vec![0i64, 2];
    let values = vec![vec![0i64, 10], vec![1, 0]];
    let slopes = vec![vec![0i64, 0], vec![0, 0]];
    let out = cubic_spline_1d_interpolate(t, (times, values, slopes));
    assert_eq!(out.len(), 1);
    assert_eq!(out[0], vec![Frac { num: 4, den: 8 }, Frac { num: 40, den: 8 }]);
    assert_eq!(out[0][0].num as f64 / out[0][0].den as f64, 0.5);
    assert_eq!(out[0][1].num as f64 / out[0][1].den as f64, 5.0);
}

// Query exactly at the first knot: an exact match returns the knot's value
// row as whole numbers, bypassing the polynomial.
#[test]
fn exact_match_at_first_knot_returns_knot_values() {
    let t = vec![0i64];
    let times = vec![0i64, 2];
    let values = vec![vec![0i64, 10], vec![1, 0]];
    let slopes = vec![vec![0i64, 0], vec![0, 0]];
    let out = cubic_spline_1d_interpolate(t, (times, values, slopes));
    assert_eq!(out, vec![vec![Frac { num: 0, den: 1 }, Frac { num: 10, den: 1 }]]);
}

// Exact match at an interior knot, reached after the cursor has already
// advanced past earlier segments.
#[test]
fn exact_match_at_interior_knot_after_advance() {
    let t = vec![1i64, 4];
    let times = vec![0i64, 2, 4, 6];
    let values = vec![vec![5i64], vec![7], vec![9], vec![11]];
    let slopes = vec![vec![0i64], vec![0], vec![0], vec![0]];
    let out = cubic_spline_1d_interpolate(t, (times, values, slopes));
    assert_eq!(out.len(), 2);
    assert_eq!(out[1], vec![Frac { num: 9, den: 1 }]);
}

// A non-monotonic query sequence: the cursor never rewinds, so the second
// query (earlier in time than the first) is scanned from the later segment,
// runs off the table and yields the documented all-zero row.
#[test]
fn non_monotonic_queries_yield_zero_rows_after_cursor_passes() {
    let t = vec![3i64, 1];
    let times = vec![0i64, 2, 4];
    let values = vec![vec![0i64], vec![1], vec![2]];
    let slopes = vec![vec![0i64], vec![0], vec![0]];
    let out = cubic_spline_1d_interpolate(t, (times, values, slopes));
    // first query: midpoint of segment [2,4] between values 1 and 2
    assert_eq!(out[0], vec![Frac { num: 12, den: 8 }]);
    // second query is before the cursor: missed, zero row
    assert_eq!(out[1], vec![Frac { num: 0, den: 1 }]);
}

// Queries outside the knot range are never located: all-zero rows.
#[test]
fn out_of_range_queries_yield_zero_rows() {
    let times = vec![0i64, 2];
    let values = vec![vec![3i64], vec![4]];
    let slopes = vec![vec![0i64], vec![0]];
    let out = cubic_spline_1d_interpolate(
        vec![-1i64],
        (times.clone(), values.clone(), slopes.clone()),
    );
    assert_eq!(out, vec![vec![Frac { num: 0, den: 1 }]]);
    let out = cubic_spline_1d_interpolate(vec![5i64], (times, values, slopes));
    assert_eq!(out, vec![vec![Frac { num: 0, den: 1 }]]);
}

// The scan's loop bound stops before the last knot, so an exact match at
// the last knot's time is never found: its row stays zero.
#[test]
fn exact_match_at_last_knot_is_unreachable() {
    let t = vec![2i64];
    let times = vec![0i64, 2];
    let values = vec![vec![3i64], vec![4]];
    let slopes = vec![vec![0i64], vec![0]];
    let out = cubic_spline_1d_interpolate(t, (times, values, slopes));
    assert_eq!(out, vec![vec![Frac { num: 0, den: 1 }]]);
}

// An empty query sequence gives an empty output.
#[test]
fn no_queries_no_rows() {
    let times = vec![0i64, 2];
    let values = vec![vec![3i64], vec![4]];
    let slopes = vec![vec![0i64], vec![0]];
    let out = cubic_spline_1d_interpolate(Vec::new(), (times, values, slopes));
    assert_eq!(out.len(), 0);
}

// Several queries inside one segment: every row is the exact Hermite value
// of that segment, identical to what a fresh single-query call computes —
// the cached coefficients are reused, never recomputed differently.
#[test]
fn queries_sharing_a_segment_reuse_the_same_coefficients() {
    let times = vec![0i64, 4];
    let values = vec![vec![0i64], vec![8]];
    let slopes = vec![vec![4i64], vec![4]];
    let batch = cubic_spline_1d_interpolate(
        vec![1i64, 2, 3],
        (times.clone(), values.clone(), slopes.clone()),
    );
    for (i, q) in [1i64, 2, 3].iter().enumerate() {
        let single = cubic_spline_1d_interpolate(
            vec![*q],
            (times.clone(), values.clone(), slopes.clone()),
        );
        assert_eq!(batch[i], single[0]);
    }
    // exact value at the segment midpoint: 256/64 = 4
    assert_eq!(batch[1], vec![Frac { num: 256, den: 64 }]);
}

// Dimension independence: changing the data of one dimension leaves the
// other dimension's outputs untouched.
#[test]
fn output_of_one_dimension_ignores_other_dimensions() {
    let times = vec![0i64, 2, 4];
    let queries = vec![0i64, 1, 3];
    let values_a = vec![vec![1i64, 100], vec![2, 200], vec![3, 300]];
    let slopes_a = vec![vec![1i64, 50], vec![1, 60], vec![1, 70]];
    let values_b = vec![vec![1i64, -9], vec![2, -8], vec![3, -7]];
    let slopes_b = vec![vec![1i64, -6], vec![1, -5], vec![1, -4]];
    let out_a = cubic_spline_1d_interpolate(
        queries.clone(),
        (times.clone(), values_a, slopes_a),
    );
    let out_b = cubic_spline_1d_interpolate(queries, (times, values_b, slopes_b));
    for i in 0..out_a.len() {
        assert_eq!(out_a[i][0], out_b[i][0]);
    }
}

// Continuity at the segment ends: one grid step away from a knot on a wide
// segment, the interpolant is close to the knot's value.
#[test]
fn interpolant_approaches_knot_values_at_segment_ends() {
    let times = vec![0i64, 1000];
    let values = vec![vec![500i64], vec![-700]];
    let slopes = vec![vec![3i64], vec![-2]];
    let out = cubic_spline_1d_interpolate(
        vec![1i64, 999],
        (times.clone(), values.clone(), slopes.clone()),
    );
    let near_left = out[0][0].num as f64 / out[0][0].den as f64;
    let near_right = out[1][0].num as f64 / out[1][0].den as f64;
    assert!((near_left - 500.0).abs() < 5.0);
    assert!((near_right - (-700.0)).abs() < 5.0);
}

// Derivative consistency: the numerical derivative of the interpolant just
// inside a segment matches the supplied slope at the adjacent knot, from
// both sides of an interior knot.
#[test]
fn numerical_derivative_at_knots_matches_supplied_slopes() {
    let times = vec![0i64, 1000, 2000];
    let values = vec![vec![0i64], vec![4000], vec![0]];
    let slopes = vec![vec![1000i64], vec![-500], vec![250]];
    let out = cubic_spline_1d_interpolate(
        vec![1i64, 999, 1001, 1999],
        (times, values, slopes),
    );
    let sample = |f: Frac| f.num as f64 / f.den as f64;
    // left end of segment 0: slope 1000
    let d0 = (sample(out[0][0]) - 0.0) / 1.0;
    assert!((d0 - 1000.0).abs() / 1000.0 < 0.01);
    // right end of segment 0 and left end of segment 1: slope -500
    let d1 = (4000.0 - sample(out[1][0])) / 1.0;
    assert!((d1 - (-500.0)).abs() / 500.0 < 0.01);
    let d2 = (sample(out[2][0]) - 4000.0) / 1.0;
    assert!((d2 - (-500.0)).abs() / 500.0 < 0.01);
    // right end of segment 1: slope 250
    let d3 = (0.0 - sample(out[3][0])) / 1.0;
    assert!((d3 - 250.0).abs() / 250.0 < 0.01);
}
