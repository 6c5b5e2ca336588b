// Unit tests of the knot type and the per-segment coefficient cache.

use tiamat::knot::Point;
use tiamat::num::Frac;
use tiamat::spline::Spline;

#[test]
fn point_new_is_empty_at_time_zero() {
    let p = Point::new();
    assert_eq!(p.t, 0);
    assert!(p.x.is_empty());
    assert!(p.k.is_empty());
}

#[test]
fn point_create_stores_its_parts() {
    let p = Point::create(3, vec![1, 2], vec![4, 5]);
    assert_eq!(p.t, 3);
    assert_eq!(p.x, vec![1, 2]);
    assert_eq!(p.k, vec![4, 5]);
}

#[test]
fn frac_whole_has_denominator_one() {
    let f = Frac::whole(-7);
    assert_eq!(f.num, -7);
    assert_eq!(f.den, 1);
}

// a = k1*(t2-t1) - (x2-x1), b = -k2*(t2-t1) + (x2-x1), per dimension.
#[test]
fn update_derives_hermite_coefficients() {
    let mut s = Spline::new();
    let p1 = Point::create(0, vec![0, 10], vec![0, 3]);
    let p2 = Point::create(2, vec![1, 0], vec![0, -3]);
    s.update(p1, p2);
    assert_eq!(s.a, vec![0 * 2 - 1, 3 * 2 + 10]);
    assert_eq!(s.b, vec![0 + 1, 3 * 2 - 10]);
}

// At the midpoint of a zero-slope segment the cubic gives the linear
// midpoint: numerator 4 over denominator (t2-t1)^3 = 8.
#[test]
fn evaluate_midpoint_of_zero_slope_segment() {
    let mut s = Spline::new();
    s.update(
        Point::create(0, vec![0], vec![0]),
        Point::create(2, vec![1], vec![0]),
    );
    let row = s.evaluate(1);
    assert_eq!(row, vec![Frac { num: 4, den: 8 }]);
}
