//! Bounded integer scalars and exact fractional results.
//!
//! The engine works on an integer grid: every time, value and slope handed
//! to it is an `i64` whose magnitude is at most [`BOUND`].  The bound is what
//! makes every intermediate product of the cubic Hermite evaluation fit in
//! an `i128`, so the whole computation is exact.  Interpolated samples are
//! returned as [`Frac`] values, a plain numerator / denominator pair that is
//! never reduced and never divided out.

use vstd::prelude::*;

verus! {

/// Largest magnitude an input scalar (time, value or slope) may have.
/// With inputs in `[-BOUND, BOUND]` the Hermite numerator is below
/// `2^126` in magnitude, so `i128` arithmetic never overflows.
pub const BOUND: i64 = 16777216;

/// An input scalar the engine accepts: magnitude at most [`BOUND`].
pub open spec fn in_range(v: i64) -> bool {
    -BOUND <= v && v <= BOUND
}

/// An exact rational sample: `num / den`.  The engine only ever produces
/// denominators `>= 1`, and it never reduces the fraction.
#[derive(Clone, Copy, Debug, PartialEq, Eq, Structural)]
pub struct Frac {
    pub num: i128,
    pub den: i128,
}

impl Frac {
    /// The exact integer `v`, as the fraction `v / 1`.
    pub fn whole(v: i64) -> (r: Frac)
        ensures
            r.num == v as i128,
            r.den == 1,
    {
        Frac { num: v as i128, den: 1 }
    }
}

} // verus!
