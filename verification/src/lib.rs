//! Piecewise cubic Hermite interpolation of a multi-dimensional time series.
//!
//! A knot table (strictly increasing times, one value vector and one slope
//! vector per knot) is interpolated at a sequence of query times.  All
//! arithmetic is exact: times, values and slopes are integers on a caller
//! chosen grid, and every interpolated sample is returned as an exact
//! fraction.  The contracts pin each output entry to the Hermite polynomial
//! of the segment the forward scan locates for its query.

pub mod num;
pub mod knot;
pub mod spline;
pub mod interp;
pub mod laws;
