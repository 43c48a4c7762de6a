//! Tests of the edge classifier and the per-trial solvability predicate,
//! including the original floating-point scenarios carried over exactly:
//! every 64-bit float is a dyadic rational, so each coordinate converts
//! to an integer numerator over a shared power-of-two denominator.

use rs::closest_edge;
use rs::edge_segment;
use rs::has_solution;
use rs::Edge;
use rs::GeomError;
use rs::Point;

/// The exact value of a float in `[0, 1]` as numerator and power-of-two
/// exponent: doubling a float is exact, so this loses nothing.
fn dyadic(v: f64) -> (i128, u32) {
    let mut x = v;
    let mut k: u32 = 0;
    while x.fract() != 0.0 {
        x *= 2.0;
        k += 1;
    }
    (x as i128, k)
}

/// Two float points put exactly onto one common power-of-two grid.
fn grid_pair(bx: f64, by: f64, rx: f64, ry: f64) -> (Point, Point) {
    let parts = [dyadic(bx), dyadic(by), dyadic(rx), dyadic(ry)];
    let k = parts.iter().map(|p| p.1).max().unwrap();
    let n = |p: (i128, u32)| p.0 << (k - p.1);
    let d = 1i128 << k;
    (
        Point { x: n(parts[0]), y: n(parts[1]), d },
        Point { x: n(parts[2]), y: n(parts[3]), d },
    )
}

#[test]
fn test_identical_points() {
    let blue = Point { x: 0, y: 0, d: 1 };
    let red = Point { x: 0, y: 0, d: 1 };

    // Expect an error because the points are identical
    let result = has_solution(&blue, &red);
    assert_eq!(result, Err(GeomError::IdenticalPoints));
}

#[test]
fn test_solution_doesnt_exists_bottom_edge() {
    let blue = Point { x: 5, y: 2, d: 10 };
    let red = Point { x: 5, y: 8, d: 10 };

    let result = has_solution(&blue, &red);
    assert_eq!(result, Ok(false));
}

#[test]
fn test_solution_exists_top_edge() {
    let (blue, red) = grid_pair(
        0.41903142181567776,
        0.6453315775286078,
        0.7049400139371284,
        0.8198186859873597,
    );
    let result = has_solution(&blue, &red);
    assert_eq!(result, Ok(true));
}

#[test]
fn test_another_one() {
    let (blue, red) = grid_pair(
        0.24847643665677582,
        0.2975835100602469,
        0.11274437235696835,
        0.7160251321672993,
    );
    let result = has_solution(&blue, &red);
    assert_eq!(result, Ok(true));
}

#[test]
fn identical_points_rejected_anywhere() {
    let p = Point { x: 3, y: 3, d: 10 };
    assert_eq!(has_solution(&p, &p), Err(GeomError::IdenticalPoints));
}

#[test]
fn closest_edge_bottom_scenario() {
    let p = Point { x: 2, y: 1, d: 10 };
    assert_eq!(closest_edge(&p), Ok(Edge::Bottom));
    let s = edge_segment(Edge::Bottom);
    assert_eq!(s.a, Point { x: 0, y: 0, d: 1 });
    assert_eq!(s.b, Point { x: 1, y: 0, d: 1 });
}

#[test]
fn closest_edge_right_scenario() {
    let p = Point { x: 9, y: 2, d: 10 };
    assert_eq!(closest_edge(&p), Ok(Edge::Right));
    let s = edge_segment(Edge::Right);
    assert_eq!(s.a, Point { x: 1, y: 0, d: 1 });
    assert_eq!(s.b, Point { x: 1, y: 1, d: 1 });
}

#[test]
fn closest_edge_center_tie_breaks_to_bottom() {
    let p = Point { x: 1, y: 1, d: 2 };
    assert_eq!(closest_edge(&p), Ok(Edge::Bottom));
}

#[test]
fn closest_edge_covers_left_and_top() {
    assert_eq!(closest_edge(&Point { x: 1, y: 5, d: 10 }), Ok(Edge::Left));
    assert_eq!(closest_edge(&Point { x: 5, y: 9, d: 10 }), Ok(Edge::Top));
}

#[test]
fn closest_edge_rejects_points_outside_the_square() {
    assert_eq!(
        closest_edge(&Point { x: 15, y: 2, d: 10 }),
        Err(GeomError::OutOfDomain)
    );
    assert_eq!(
        closest_edge(&Point { x: 2, y: -1, d: 10 }),
        Err(GeomError::OutOfDomain)
    );
}

#[test]
fn has_solution_rejects_out_of_domain_point() {
    let blue = Point { x: 15, y: 2, d: 10 };
    let red = Point { x: 5, y: 8, d: 10 };
    assert_eq!(has_solution(&blue, &red), Err(GeomError::OutOfDomain));
}

#[test]
fn identical_check_precedes_domain_check() {
    let p = Point { x: 15, y: 2, d: 10 };
    assert_eq!(has_solution(&p, &p), Err(GeomError::IdenticalPoints));
}

#[test]
fn solution_found_when_bisector_reaches_left_edge() {
    // blue's nearest edge is Left; the vertical pair gives a horizontal
    // bisector through (1/8, 3/8) that reaches the left edge at (0, 3/8)
    let (blue, red) = grid_pair(0.125, 0.5, 0.125, 0.25);
    assert_eq!(has_solution(&blue, &red), Ok(true));
}
