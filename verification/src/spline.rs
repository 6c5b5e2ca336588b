//! Hermite coefficient builder and evaluator for one segment.
//!
//! Between two knots `p1`, `p2` the engine interpolates with the cubic
//! Hermite polynomial, parameterized on the unit interval by
//! `p = (t - t1) / (t2 - t1)`:
//!
//! ```text
//! a[d] =  k1[d] * (t2 - t1) - (x2[d] - x1[d])
//! b[d] = -k2[d] * (t2 - t1) + (x2[d] - x1[d])
//! out[d] = (1-p)*x1[d] + p*x2[d] + p*(1-p)*((1-p)*a[d] + p*b[d])
//! ```
//!
//! On the integer grid the same value is carried exactly: with
//! `u = t - t1`, `v = t2 - t` and `h = t2 - t1`, clearing denominators gives
//! `out[d] = eval_num / h^3` where
//! `eval_num = h^2*(v*x1[d] + u*x2[d]) + u*v*(v*a[d] + u*b[d])`.
//! The [`Spline`] struct is the coefficient cache: `update` derives `a`, `b`
//! from a bracketing knot pair, and `evaluate` applies the polynomial; the
//! segment locator calls `update` only when the bracket changes.

use vstd::prelude::*;
use crate::num::{BOUND, in_range, Frac};
use crate::knot::Point;

verus! {

/// First Hermite coefficient of one dimension:
/// `a = k1 * (t2 - t1) - (x2 - x1)`.
pub open spec fn coeff_a(t1: i64, t2: i64, x1: i64, x2: i64, k1: i64) -> int {
    k1 * (t2 - t1) - (x2 - x1)
}

/// Second Hermite coefficient of one dimension:
/// `b = -k2 * (t2 - t1) + (x2 - x1)`.
pub open spec fn coeff_b(t1: i64, t2: i64, x1: i64, x2: i64, k2: i64) -> int {
    -k2 * (t2 - t1) + (x2 - x1)
}

/// Numerator of the Hermite interpolant of one dimension at time `t`,
/// over the denominator `(t2 - t1)^3`, for given coefficients `a`, `b`.
pub open spec fn eval_num(t1: i64, t2: i64, x1: i64, x2: i64, a: int, b: int, t: i64) -> int {
    let h = t2 - t1;
    let u = t - t1;
    let v = t2 - t;
    h * h * (v * x1 + u * x2) + u * v * (v * a + u * b)
}

/// Denominator of the Hermite interpolant: `(t2 - t1)^3`.
pub open spec fn eval_den(t1: i64, t2: i64) -> int {
    (t2 - t1) * (t2 - t1) * (t2 - t1)
}

/// Numerator of the Hermite interpolant of one dimension at time `t`, with
/// the coefficients derived from the knot data itself.
pub open spec fn hermite_num(t1: i64, t2: i64, x1: i64, x2: i64, k1: i64, k2: i64, t: i64) -> int {
    eval_num(t1, t2, x1, x2, coeff_a(t1, t2, x1, x2, k1), coeff_b(t1, t2, x1, x2, k2), t)
}

/// Magnitude bound on a cached coefficient derived from in-range knots:
/// `|k1*(t2-t1)| + |x2-x1| <= BOUND*2*BOUND + 2*BOUND`.
pub const COEFF_BOUND: i128 = 562949986975744;

/// A coefficient small enough for exact evaluation in `i128`.
pub open spec fn coeff_in_range(c: i128) -> bool {
    -COEFF_BOUND <= c && c <= COEFF_BOUND
}

/// The per-segment state: the bracketing knot pair and the cached
/// coefficient vectors `a`, `b` derived from it.
pub struct Spline {
    pub p1: Point,
    pub p2: Point,
    pub a: Vec<i128>,
    pub b: Vec<i128>,
}

impl Spline {
    /// The cache holds exactly the coefficients of its own knot pair, one
    /// per dimension, and the pair is well formed.
    pub open spec fn wf(self) -> bool {
        &&& self.p1.wf()
        &&& self.p2.wf()
        &&& self.p1.x@.len() == self.p2.x@.len()
        &&& self.a@.len() == self.p1.x@.len()
        &&& self.b@.len() == self.p1.x@.len()
        &&& forall|d: int| 0 <= d < self.a@.len() ==>
                self.a@[d] == coeff_a(self.p1.t, self.p2.t, self.p1.x@[d], self.p2.x@[d], self.p1.k@[d])
        &&& forall|d: int| 0 <= d < self.b@.len() ==>
                self.b@[d] == coeff_b(self.p1.t, self.p2.t, self.p1.x@[d], self.p2.x@[d], self.p2.k@[d])
    }

    /// An empty cache: zero-dimensional knot pair, no coefficients.
    pub fn new() -> (r: Spline)
        ensures
            r.p1.x@.len() == 0,
            r.p2.x@.len() == 0,
            r.a@.len() == 0,
            r.b@.len() == 0,
            r.wf(),
    {
        Spline {
            p1: Point::new(),
            p2: Point::new(),
            a: Vec::<i128>::new(),
            b: Vec::<i128>::new(),
        }
    }

    /// Rebuild the cache for the bracketing pair `(p1, p2)`: store the pair
    /// and derive both coefficient vectors, one entry per dimension.
    pub fn update(&mut self, p1: Point, p2: Point)
        requires
            p1.wf(),
            p2.wf(),
            p1.x@.len() == p2.x@.len(),
        ensures
            final(self).p1 == p1,
            final(self).p2 == p2,
            final(self).wf(),
    {
        let dim: usize = p1.x.len();
        let mut a = Vec::<i128>::new();
        let mut b = Vec::<i128>::new();
        let h: i128 = (p2.t as i128) - (p1.t as i128);
        let mut i: usize = 0;
        while i < dim
            invariant
                0 <= i <= dim,
                dim == p1.x@.len(),
                p1.wf(),
                p2.wf(),
                p1.x@.len() == p2.x@.len(),
                h == p2.t - p1.t,
                a@.len() == i,
                b@.len() == i,
                forall|d: int| 0 <= d < i ==>
                    a@[d] == coeff_a(p1.t, p2.t, p1.x@[d], p2.x@[d], p1.k@[d]),
                forall|d: int| 0 <= d < i ==>
                    b@[d] == coeff_b(p1.t, p2.t, p1.x@[d], p2.x@[d], p2.k@[d]),
            decreases dim - i,
        {
            let k1: i128 = p1.k[i] as i128;
            let k2: i128 = p2.k[i] as i128;
            let dx: i128 = (p2.x[i] as i128) - (p1.x[i] as i128);
            proof {
                lemma_coeff_fits(h as int, k1 as int, k2 as int, dx as int);
            }
            a.push(k1 * h - dx);
            b.push(-k2 * h + dx);
            i = i + 1;
        }
        self.p1 = p1;
        self.p2 = p2;
        self.a = a;
        self.b = b;
    }

    /// Evaluate the cached Hermite polynomial at time `t`: one exact
    /// fraction per dimension, over the denominator `(t2 - t1)^3`.
    pub fn evaluate(&self, t: i64) -> (r: Vec<Frac>)
        requires
            self.p1.wf(),
            self.p2.wf(),
            self.p1.x@.len() == self.p2.x@.len(),
            self.a@.len() == self.p1.x@.len(),
            self.b@.len() == self.p1.x@.len(),
            forall|d: int| 0 <= d < self.a@.len() ==> coeff_in_range(self.a@[d]),
            forall|d: int| 0 <= d < self.b@.len() ==> coeff_in_range(self.b@[d]),
            in_range(t),
        ensures
            r@.len() == self.p1.x@.len(),
            forall|d: int| 0 <= d < r@.len() ==>
                r@[d].num == eval_num(self.p1.t, self.p2.t, self.p1.x@[d], self.p2.x@[d],
                                      self.a@[d] as int, self.b@[d] as int, t),
            forall|d: int| 0 <= d < r@.len() ==> r@[d].den == eval_den(self.p1.t, self.p2.t),
    {
        let dim: usize = self.p1.x.len();
        let h: i128 = (self.p2.t as i128) - (self.p1.t as i128);
        let u: i128 = (t as i128) - (self.p1.t as i128);
        let v: i128 = (self.p2.t as i128) - (t as i128);
        proof {
            lemma_cube_fits(h as int);
        }
        let den: i128 = h * h * h;
        let mut out = Vec::<Frac>::new();
        let mut i: usize = 0;
        while i < dim
            invariant
                0 <= i <= dim,
                dim == self.p1.x@.len(),
                self.p1.wf(),
                self.p2.wf(),
                self.p1.x@.len() == self.p2.x@.len(),
                self.a@.len() == dim,
                self.b@.len() == dim,
                forall|d: int| 0 <= d < dim ==> coeff_in_range(self.a@[d]),
                forall|d: int| 0 <= d < dim ==> coeff_in_range(self.b@[d]),
                in_range(t),
                h == self.p2.t - self.p1.t,
                u == t - self.p1.t,
                v == self.p2.t - t,
                den == eval_den(self.p1.t, self.p2.t),
                out@.len() == i,
                forall|d: int| 0 <= d < i ==>
                    out@[d].num == eval_num(self.p1.t, self.p2.t, self.p1.x@[d], self.p2.x@[d],
                                            self.a@[d] as int, self.b@[d] as int, t),
                forall|d: int| 0 <= d < i ==> out@[d].den == eval_den(self.p1.t, self.p2.t),
            decreases dim - i,
        {
            let x1: i128 = self.p1.x[i] as i128;
            let x2: i128 = self.p2.x[i] as i128;
            let ca: i128 = self.a[i];
            let cb: i128 = self.b[i];
            proof {
                lemma_eval_fits(h as int, u as int, v as int, x1 as int, x2 as int,
                                ca as int, cb as int);
            }
            let num: i128 = h * h * (v * x1 + u * x2) + u * v * (v * ca + u * cb);
            out.push(Frac { num, den });
            i = i + 1;
        }
        out
    }
}

/// The Hermite coefficients of one dimension fit in `i128` and obey
/// `COEFF_BOUND` when the knot scalars are on the bounded grid.
proof fn lemma_coeff_fits(h: int, k1: int, k2: int, dx: int)
    by (nonlinear_arith)
    requires
        -2 * (BOUND as int) <= h <= 2 * (BOUND as int),
        -(BOUND as int) <= k1 <= BOUND as int,
        -(BOUND as int) <= k2 <= BOUND as int,
        -2 * (BOUND as int) <= dx <= 2 * (BOUND as int),
    ensures
        -(COEFF_BOUND as int) <= k1 * h <= COEFF_BOUND as int,
        -(COEFF_BOUND as int) <= k1 * h - dx <= COEFF_BOUND as int,
        -(COEFF_BOUND as int) <= (-k2) * h <= COEFF_BOUND as int,
        -(COEFF_BOUND as int) <= (-k2) * h + dx <= COEFF_BOUND as int,
{
}

/// The cube of a segment width on the bounded grid fits in `i128`.
proof fn lemma_cube_fits(h: int)
    by (nonlinear_arith)
    requires
        -2 * (BOUND as int) <= h <= 2 * (BOUND as int),
    ensures
        i128::MIN <= h * h <= i128::MAX,
        i128::MIN <= h * h * h <= i128::MAX,
{
}

/// A product is bounded by the product of the bounds.
proof fn lemma_mul_bound(x: int, y: int, bx: int, by: int)
    by (nonlinear_arith)
    requires
        0 <= bx,
        0 <= by,
        -bx <= x <= bx,
        -by <= y <= by,
    ensures
        -(bx * by) <= x * y <= bx * by,
{
}

/// The exact Hermite numerator of one dimension fits in `i128` when the
/// scalars are on the bounded grid and the coefficients obey `COEFF_BOUND`;
/// in particular every intermediate product of
/// `h*h*(v*x1 + u*x2) + u*v*(v*a + u*b)` stays below `2^126`.
proof fn lemma_eval_fits(h: int, u: int, v: int, x1: int, x2: int, a: int, b: int)
    requires
        -2 * (BOUND as int) <= h <= 2 * (BOUND as int),
        -2 * (BOUND as int) <= u <= 2 * (BOUND as int),
        -2 * (BOUND as int) <= v <= 2 * (BOUND as int),
        -(BOUND as int) <= x1 <= BOUND as int,
        -(BOUND as int) <= x2 <= BOUND as int,
        -(COEFF_BOUND as int) <= a <= COEFF_BOUND as int,
        -(COEFF_BOUND as int) <= b <= COEFF_BOUND as int,
    ensures
        i128::MIN <= v * x1 <= i128::MAX,
        i128::MIN <= u * x2 <= i128::MAX,
        i128::MIN <= v * x1 + u * x2 <= i128::MAX,
        i128::MIN <= h * h <= i128::MAX,
        i128::MIN <= h * h * (v * x1 + u * x2) <= i128::MAX,
        i128::MIN <= v * a <= i128::MAX,
        i128::MIN <= u * b <= i128::MAX,
        i128::MIN <= v * a + u * b <= i128::MAX,
        i128::MIN <= u * v <= i128::MAX,
        i128::MIN <= u * v * (v * a + u * b) <= i128::MAX,
        i128::MIN <= h * h * (v * x1 + u * x2) + u * v * (v * a + u * b) <= i128::MAX,
{
    lemma_mul_bound(v, x1, 33554432, 16777216);
    lemma_mul_bound(u, x2, 33554432, 16777216);
    lemma_mul_bound(h, h, 33554432, 33554432);
    lemma_mul_bound(h * h, v * x1 + u * x2, 1125899906842624, 1125899906842624);
    lemma_mul_bound(v, a, 33554432, 562949986975744);
    lemma_mul_bound(u, b, 33554432, 562949986975744);
    lemma_mul_bound(u, v, 33554432, 33554432);
    lemma_mul_bound(u * v, v * a + u * b, 1125899906842624, 37778934114756975394816);
}

/// Coefficients derived from two in-range knots obey `COEFF_BOUND`.
pub(crate) proof fn lemma_coeff_bounds(t1: i64, t2: i64, x1: i64, x2: i64, k1: i64, k2: i64)
    by (nonlinear_arith)
    requires
        in_range(t1),
        in_range(t2),
        in_range(x1),
        in_range(x2),
        in_range(k1),
        in_range(k2),
    ensures
        coeff_in_range(coeff_a(t1, t2, x1, x2, k1) as i128),
        coeff_in_range(coeff_b(t1, t2, x1, x2, k2) as i128),
        -(COEFF_BOUND as int) <= coeff_a(t1, t2, x1, x2, k1) <= COEFF_BOUND as int,
        -(COEFF_BOUND as int) <= coeff_b(t1, t2, x1, x2, k2) <= COEFF_BOUND as int,
{
}

} // verus!
