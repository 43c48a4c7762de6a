//! Tests of the geometry kernel on exact rational points.

use rs::gradient;
use rs::midpoint;
use rs::on_segment;
use rs::orientation;
use rs::perpendicular_bisector;
use rs::points_coincide;
use rs::segments_intersect;
use rs::Orientation;
use rs::Point;
use rs::Segment;
use rs::Slope;

fn ipt(x: i128, y: i128) -> Point {
    Point { x, y, d: 1 }
}

#[test]
fn test_find_midpoint() {
    let p1 = Point { x: 0, y: 0, d: 1 };
    let p2 = Point { x: 2, y: 2, d: 1 };
    let midpoint = midpoint(&p1, &p2);
    assert!(points_coincide(&midpoint, &Point { x: 1, y: 1, d: 1 }));
    assert_eq!(midpoint.x * 1, 1 * midpoint.d);
    assert_eq!(midpoint.y * 1, 1 * midpoint.d);
}

#[test]
fn test_find_gradient() {
    let p1 = Point { x: 1, y: 1, d: 1 };
    let p2 = Point { x: 4, y: 5, d: 1 };
    let gradient_value = gradient(&p1, &p2);
    assert_eq!(gradient_value, Slope::Finite { num: 4, den: 3 });

    // A vertical line's gradient is the infinite slope, not an error.
    let p3 = Point { x: 2, y: 3, d: 1 };
    let p4 = Point { x: 2, y: 6, d: 1 };
    let gradient_value = gradient(&p3, &p4);
    assert_eq!(gradient_value, Slope::Infinite);
}

#[test]
fn gradient_is_direction_symmetric() {
    let p1 = Point { x: 1, y: 1, d: 2 };
    let p2 = Point { x: 4, y: 5, d: 2 };
    assert_eq!(gradient(&p1, &p2), gradient(&p2, &p1));
    let p3 = Point { x: 2, y: 3, d: 1 };
    let p4 = Point { x: 2, y: 6, d: 1 };
    assert_eq!(gradient(&p3, &p4), gradient(&p4, &p3));
    assert_eq!(gradient(&p3, &p4), Slope::Infinite);
}

#[test]
fn midpoint_is_symmetric() {
    let p1 = Point { x: 3, y: 7, d: 10 };
    let p2 = Point { x: 9, y: 1, d: 5 };
    let m1 = midpoint(&p1, &p2);
    let m2 = midpoint(&p2, &p1);
    assert!(points_coincide(&m1, &m2));
}

#[test]
fn orientation_three_ways() {
    assert_eq!(
        orientation(&ipt(0, 0), &ipt(2, 1), &ipt(4, 3)),
        Orientation::Clockwise
    );
    assert_eq!(
        orientation(&ipt(0, 0), &ipt(2, 3), &ipt(4, 3)),
        Orientation::CounterClockwise
    );
    assert_eq!(
        orientation(&ipt(1, 1), &ipt(2, 2), &ipt(3, 3)),
        Orientation::Collinear
    );
}

#[test]
fn orientation_invariant_under_scaling_and_translation() {
    let o = orientation(&ipt(0, 0), &ipt(2, 1), &ipt(4, 3));
    let scaled = orientation(&ipt(0, 0), &ipt(6, 3), &ipt(12, 9));
    assert_eq!(o, scaled);
    let translated = orientation(&ipt(5, 7), &ipt(7, 8), &ipt(9, 10));
    assert_eq!(o, translated);
}

#[test]
fn orientation_flips_under_reflection() {
    let o = orientation(&ipt(0, 0), &ipt(2, 1), &ipt(4, 3));
    let reflected = orientation(&ipt(0, 0), &ipt(-2, 1), &ipt(-4, 3));
    assert_eq!(o, Orientation::Clockwise);
    assert_eq!(reflected, Orientation::CounterClockwise);
}

#[test]
fn on_segment_resolves_collinear_points() {
    assert!(on_segment(&ipt(1, 1), &ipt(2, 2), &ipt(3, 3)));
    assert!(!on_segment(&ipt(1, 1), &ipt(5, 5), &ipt(3, 3)));
}

#[test]
fn segments_intersect_proper_crossing() {
    let l1 = Segment { a: ipt(1, 1), b: ipt(4, 4) };
    let l2 = Segment { a: ipt(1, 4), b: ipt(4, 1) };
    assert!(segments_intersect(&l1, &l2));
}

#[test]
fn segments_collinear_disjoint_do_not_intersect() {
    let l1 = Segment { a: ipt(1, 1), b: ipt(4, 4) };
    let l5 = Segment { a: ipt(5, 5), b: ipt(7, 7) };
    assert!(!segments_intersect(&l1, &l5));
}

#[test]
fn segments_collinear_overlapping_intersect() {
    let l1 = Segment { a: ipt(1, 1), b: ipt(4, 4) };
    let l3 = Segment { a: ipt(3, 3), b: ipt(7, 7) };
    assert!(segments_intersect(&l1, &l3));
}

#[test]
fn segments_intersect_is_symmetric() {
    let l1 = Segment { a: ipt(1, 1), b: ipt(4, 4) };
    let l2 = Segment { a: ipt(1, 4), b: ipt(4, 1) };
    let l5 = Segment { a: ipt(5, 5), b: ipt(7, 7) };
    assert_eq!(segments_intersect(&l1, &l2), segments_intersect(&l2, &l1));
    assert_eq!(segments_intersect(&l1, &l5), segments_intersect(&l5, &l1));
}

#[test]
fn bisector_of_vertical_pair_is_horizontal() {
    let blue = Point { x: 5, y: 2, d: 10 };
    let red = Point { x: 5, y: 8, d: 10 };
    let s = perpendicular_bisector(&blue, &red).unwrap();
    assert_eq!(s.a, Point { x: 10, y: 10, d: 20 });
    assert_eq!(s.b, Point { x: 0, y: 10, d: 20 });
}

#[test]
fn bisector_general_case_hits_y_axis() {
    let p1 = Point { x: 0, y: 0, d: 1 };
    let p2 = Point { x: 2, y: 2, d: 1 };
    let s = perpendicular_bisector(&p1, &p2).unwrap();
    // midpoint (1, 1); the bisector y = -x + 2 meets x = 0 at y = 2
    assert!(points_coincide(&s.a, &Point { x: 1, y: 1, d: 1 }));
    assert!(points_coincide(&s.b, &Point { x: 0, y: 2, d: 1 }));
}

#[test]
fn bisector_of_identical_points_is_an_error() {
    let p = Point { x: 3, y: 3, d: 10 };
    assert_eq!(
        perpendicular_bisector(&p, &p),
        Err(rs::GeomError::IdenticalPoints)
    );
}
