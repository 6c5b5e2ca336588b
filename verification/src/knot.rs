//! A single knot of the time series: a timestamp, a state vector and the
//! state's derivative ("slope") vector at that time.

use vstd::prelude::*;
use crate::num::in_range;

verus! {

/// One timestamped sample: time `t`, value vector `x`, slope vector `k`.
/// The knot table the engine scans is a sequence of these with strictly
/// increasing times; no knot is ever mutated by the engine.
pub struct Point {
    pub t: i64,
    pub x: Vec<i64>,
    pub k: Vec<i64>,
}

impl Point {
    /// Well-formed for interpolation: value and slope vectors have the same
    /// dimension and every scalar is on the bounded grid.
    pub open spec fn wf(self) -> bool {
        &&& in_range(self.t)
        &&& self.x@.len() == self.k@.len()
        &&& forall|d: int| 0 <= d < self.x@.len() ==> in_range(self.x@[d])
        &&& forall|d: int| 0 <= d < self.k@.len() ==> in_range(self.k@[d])
    }

    /// The empty knot: time zero, no dimensions.
    pub fn new() -> (r: Point)
        ensures
            r.t == 0,
            r.x@ == Seq::<i64>::empty(),
            r.k@ == Seq::<i64>::empty(),
            r.wf(),
    {
        Point { t: 0, x: Vec::<i64>::new(), k: Vec::<i64>::new() }
    }

    /// A knot from its parts.
    pub fn create(t: i64, x: Vec<i64>, k: Vec<i64>) -> (r: Point)
        ensures
            r.t == t,
            r.x@ == x@,
            r.k@ == k@,
    {
        Point { t, x, k }
    }
}

} // verus!
