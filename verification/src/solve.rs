//! The solvability predicate: does the perpendicular bisector of two
//! sampled points cross the boundary segment nearest to the first point?
//!
//! The bisector's y-intercept carries a denominator that is quadratic in
//! the input denominators, so the generic `orientation` formula would
//! overflow on it. The helpers here evaluate the same cross-product signs
//! through factored forms that stay inside `i128`, and each is proved
//! equal to `orient_spec` on the model points, so `has_solution` meets the
//! exact segment-intersection specification.

use vstd::prelude::*;

use crate::arith::lemma_abs_mul_le;
use crate::arith::lemma_intercept_cross;
use crate::arith::lemma_intercept_cross_neg;
use crate::arith::lemma_shared_cross;
use crate::arith::lemma_cancel_eq;
use crate::arith::lemma_mul_ge_one;
use crate::arith::lemma_pos_scale_sign;
use crate::arith::lemma_sign_product;
use crate::edges::closest_edge;
use crate::edges::edge_segment;
use crate::kernel::rat_between_exec;
use crate::kernel::COORD_LIMIT;
use crate::model::bis_intercept_model;
use crate::model::bounded;
use crate::model::closest_edge_spec;
use crate::model::corner_model;
use crate::model::cross_num;
use crate::model::edge_seg_model;
use crate::model::has_solution_model;
use crate::model::in_domain;
use crate::model::orient_spec;
use crate::model::pb_model;
use crate::model::pt_eq;
use crate::model::seg_intersect_spec;
use crate::model::Edge;
use crate::model::GeomError;
use crate::model::Orientation;
use crate::model::Point;
use crate::model::PointModel;

verus! {

/// Orientation of `((c1x,c1y), (c2x,c2y), (px/pd, py/pd))` where the two
/// leading points are corners of the unit square. With corner
/// denominators of one, the cleared cross product is linear in the third
/// point's components, so it tolerates the bisector intercept's large
/// numerator and denominator.
fn orient_corners(c1x: i128, c1y: i128, c2x: i128, c2y: i128, px: i128, py: i128, pd: i128) -> (o:
    Orientation)
    requires
        0 <= c1x <= 1,
        0 <= c1y <= 1,
        0 <= c2x <= 1,
        0 <= c2y <= 1,
        1 <= pd <= 21267647932558653966460912964485513216,
        -21267647932558653966460912964485513216 <= px <= 21267647932558653966460912964485513216,
        -21267647932558653966460912964485513216 <= py <= 21267647932558653966460912964485513216,
    ensures
        o == orient_spec(
            corner_model(c1x as int, c1y as int),
            corner_model(c2x as int, c2y as int),
            PointModel { x: px as int, y: py as int, d: pd as int },
        ),
{
    proof {
        lemma_abs_mul_le(c2y as int, pd as int, 1, 21267647932558653966460912964485513216);
        lemma_abs_mul_le(c2x as int, pd as int, 1, 21267647932558653966460912964485513216);
        lemma_abs_mul_le(
            c2x as int - c1x as int,
            py as int - c2y as int * pd as int,
            1,
            42535295865117307932921825928971026432,
        );
        lemma_abs_mul_le(
            c2y as int - c1y as int,
            px as int - c2x as int * pd as int,
            1,
            42535295865117307932921825928971026432,
        );
        assert(cross_num(
            corner_model(c1x as int, c1y as int),
            corner_model(c2x as int, c2y as int),
            PointModel { x: px as int, y: py as int, d: pd as int },
        ) == (c2x as int - c1x as int) * (py as int - c2y as int * pd as int) - (c2y as int
            - c1y as int) * (px as int - c2x as int * pd as int)) by (nonlinear_arith);
    }
    let c = (c2x - c1x) * (py - c2y * pd) - (c2y - c1y) * (px - c2x * pd);
    if c > 0 {
        Orientation::Clockwise
    } else if c < 0 {
        Orientation::CounterClockwise
    } else {
        Orientation::Collinear
    }
}

/// Orientation of `((px,py)/e, (qx,qy)/e, (cx,cy))` where the first two
/// points share the denominator `e` and the third is a corner. The shared
/// denominator factors out of the cleared cross product, which leaves a
/// quadratic form that fits in `i128`.
fn orient_shared(px: i128, py: i128, qx: i128, qy: i128, e: i128, cx: i128, cy: i128) -> (o:
    Orientation)
    requires
        1 <= e <= 2305843009213693952,
        -2305843009213693952 <= px <= 2305843009213693952,
        -2305843009213693952 <= py <= 2305843009213693952,
        -2305843009213693952 <= qx <= 2305843009213693952,
        -2305843009213693952 <= qy <= 2305843009213693952,
        0 <= cx <= 1,
        0 <= cy <= 1,
    ensures
        o == orient_spec(
            PointModel { x: px as int, y: py as int, d: e as int },
            PointModel { x: qx as int, y: qy as int, d: e as int },
            corner_model(cx as int, cy as int),
        ),
{
    proof {
        lemma_abs_mul_le(cy as int, e as int, 1, 2305843009213693952);
        lemma_abs_mul_le(cx as int, e as int, 1, 2305843009213693952);
        lemma_abs_mul_le(
            qx as int - px as int,
            cy as int * e as int - qy as int,
            4611686018427387904,
            6917529027641081856,
        );
        lemma_abs_mul_le(
            qy as int - py as int,
            cx as int * e as int - qx as int,
            4611686018427387904,
            6917529027641081856,
        );
        assert(cross_num(
            PointModel { x: px as int, y: py as int, d: e as int },
            PointModel { x: qx as int, y: qy as int, d: e as int },
            corner_model(cx as int, cy as int),
        ) == (qx as int * e as int - px as int * e as int) * (cy as int * e as int - qy as int * 1)
            - (qy as int * e as int - py as int * e as int) * (cx as int * e as int - qx as int
            * 1));
        lemma_shared_cross(
            px as int,
            py as int,
            qx as int,
            qy as int,
            e as int,
            cx as int,
            cy as int,
        );
        lemma_pos_scale_sign(
            e as int,
            (qx as int - px as int) * (cy as int * e as int - qy as int) - (qy as int - py as int)
                * (cx as int * e as int - qx as int),
        );
    }
    let n = (qx - px) * (cy * e - qy) - (qy - py) * (cx * e - qx);
    if n > 0 {
        Orientation::Clockwise
    } else if n < 0 {
        Orientation::CounterClockwise
    } else {
        Orientation::Collinear
    }
}

/// Orientation of `(m, b, c)` where `m = (mx,my)/e` is the midpoint, `b`
/// is the bisector's y-intercept for a source segment of differences
/// `(dx, dy)` with `dy != 0`, and `c` is a corner. The cleared cross
/// product factors as `e * dy * mx * k`, so its sign is the product of
/// the factors' signs and every factor fits in `i128`.
fn orient_intercept(mx: i128, my: i128, dx: i128, dy: i128, e: i128, cx: i128, cy: i128) -> (o:
    Orientation)
    requires
        2 <= e <= 2305843009213693952,
        -2305843009213693952 <= mx <= 2305843009213693952,
        -2305843009213693952 <= my <= 2305843009213693952,
        -2305843009213693952 <= dx <= 2305843009213693952,
        -2305843009213693952 <= dy <= 2305843009213693952,
        dy != 0,
        0 <= cx <= 1,
        0 <= cy <= 1,
    ensures
        o == orient_spec(
            PointModel { x: mx as int, y: my as int, d: e as int },
            bis_intercept_model(mx as int, my as int, dx as int, dy as int, e as int),
            corner_model(cx as int, cy as int),
        ),
{
    proof {
        lemma_abs_mul_le(dx as int, mx as int, 2305843009213693952, 2305843009213693952);
        lemma_abs_mul_le(dy as int, my as int, 2305843009213693952, 2305843009213693952);
        lemma_abs_mul_le(cy as int, dy as int, 1, 2305843009213693952);
        lemma_abs_mul_le(cx as int, dx as int, 1, 2305843009213693952);
        lemma_abs_mul_le(
            e as int,
            cy as int * dy as int + cx as int * dx as int,
            2305843009213693952,
            4611686018427387904,
        );
    }
    let k = dx * mx + dy * my - e * (cy * dy + cx * dx);
    proof {
        if dy > 0 {
            assert(cross_num(
                PointModel { x: mx as int, y: my as int, d: e as int },
                bis_intercept_model(mx as int, my as int, dx as int, dy as int, e as int),
                corner_model(cx as int, cy as int),
            ) == (0 * e as int - mx as int * (e as int * dy as int)) * (cy as int * (e as int
                * dy as int) - (dx as int * mx as int + dy as int * my as int) * 1) - ((dx as int
                * mx as int + dy as int * my as int) * e as int - my as int * (e as int
                * dy as int)) * (cx as int * (e as int * dy as int) - 0 * 1));
            lemma_intercept_cross(
                mx as int,
                my as int,
                dx as int,
                dy as int,
                e as int,
                cx as int,
                cy as int,
                dx as int * mx as int + dy as int * my as int,
                e as int * dy as int,
            );
        } else {
            assert(cross_num(
                PointModel { x: mx as int, y: my as int, d: e as int },
                bis_intercept_model(mx as int, my as int, dx as int, dy as int, e as int),
                corner_model(cx as int, cy as int),
            ) == (0 * e as int - mx as int * -(e as int * dy as int)) * (cy as int * -(e as int
                * dy as int) - -(dx as int * mx as int + dy as int * my as int) * 1) - (-(dx as int
                * mx as int + dy as int * my as int) * e as int - my as int * -(e as int
                * dy as int)) * (cx as int * -(e as int * dy as int) - 0 * 1));
            lemma_intercept_cross_neg(
                mx as int,
                my as int,
                dx as int,
                dy as int,
                e as int,
                cx as int,
                cy as int,
                dx as int * mx as int + dy as int * my as int,
                e as int * dy as int,
            );
        }
        lemma_pos_scale_sign(e as int, dy as int * (mx as int * (k as int)));
        lemma_sign_product(dy as int, mx as int * (k as int));
        lemma_sign_product(mx as int, k as int);
    }
    let s1: i128 = if mx > 0 {
        1
    } else if mx < 0 {
        -1
    } else {
        0
    };
    let s2: i128 = if dy > 0 {
        1
    } else {
        -1
    };
    let s3: i128 = if k > 0 {
        1
    } else if k < 0 {
        -1
    } else {
        0
    };
    proof {
        lemma_abs_mul_le(s1 as int, s2 as int, 1, 1);
        lemma_abs_mul_le(s1 as int * s2 as int, s3 as int, 1, 1);
        lemma_sign_product(s1 as int * s2 as int, s3 as int);
        lemma_sign_product(s1 as int, s2 as int);
    }
    let s = s1 * s2 * s3;
    if s > 0 {
        Orientation::Clockwise
    } else if s < 0 {
        Orientation::CounterClockwise
    } else {
        Orientation::Collinear
    }
}

/// Does the perpendicular bisector of `blue` and `red` cross the named
/// boundary edge of the unit square? Exactly the orientation-based
/// segment-intersection test, evaluated without overflow.
fn bisector_meets_edge(blue: &Point, red: &Point, edge: Edge) -> (r: bool)
    requires
        blue@.d == red@.d,
        bounded(blue@, COORD_LIMIT as int),
        bounded(red@, COORD_LIMIT as int),
        !pt_eq(blue@, red@),
    ensures
        r == seg_intersect_spec(pb_model(blue@, red@), edge_seg_model(edge)),
{
    let es = edge_segment(edge);
    let c1x = es.a.x;
    let c1y = es.a.y;
    let c2x = es.b.x;
    let c2y = es.b.y;
    let e = 2 * blue.d;
    let mx = blue.x + red.x;
    let my = blue.y + red.y;
    let dx = red.x - blue.x;
    let dy = red.y - blue.y;
    let ghost pb = pb_model(blue@, red@);
    let ghost l2 = edge_seg_model(edge);
    proof {
        assert(l2.a == corner_model(c1x as int, c1y as int));
        assert(l2.b == corner_model(c2x as int, c2y as int));
        assert(pb.a == (PointModel { x: mx as int, y: my as int, d: e as int }));
    }
    let (o1, o2, b2x, b2y, b2d) = if dx == 0 {
        (
            orient_shared(mx, my, 0, my, e, c1x, c1y),
            orient_shared(mx, my, 0, my, e, c2x, c2y),
            0,
            my,
            e,
        )
    } else if dy == 0 {
        (
            orient_shared(mx, my, mx, 0, e, c1x, c1y),
            orient_shared(mx, my, mx, 0, e, c2x, c2y),
            mx,
            0,
            e,
        )
    } else {
        proof {
            lemma_abs_mul_le(dx as int, mx as int, 2305843009213693952, 2305843009213693952);
            lemma_abs_mul_le(dy as int, my as int, 2305843009213693952, 2305843009213693952);
            lemma_abs_mul_le(e as int, dy as int, 2305843009213693952, 2305843009213693952);
            if dy > 0 {
                lemma_mul_ge_one(e as int, dy as int);
            } else {
                lemma_mul_ge_one(e as int, -(dy as int));
                assert(e as int * -(dy as int) == -(e as int * dy as int)) by (nonlinear_arith);
            }
        }
        let yn0 = dx * mx + dy * my;
        let yd0 = e * dy;
        let (b2y, b2d) = if dy > 0 {
            (yn0, yd0)
        } else {
            (-yn0, -yd0)
        };
        (
            orient_intercept(mx, my, dx, dy, e, c1x, c1y),
            orient_intercept(mx, my, dx, dy, e, c2x, c2y),
            0,
            b2y,
            b2d,
        )
    };
    proof {
        assert(pb.b == (PointModel { x: b2x as int, y: b2y as int, d: b2d as int }));
        assert(o1 == orient_spec(pb.a, pb.b, l2.a));
        assert(o2 == orient_spec(pb.a, pb.b, l2.b));
    }
    let o3 = orient_corners(c1x, c1y, c2x, c2y, mx, my, e);
    let o4 = orient_corners(c1x, c1y, c2x, c2y, b2x, b2y, b2d);
    if o1 != o2 && o3 != o4 {
        return true;
    }
    proof {
        lemma_abs_mul_le(c1x as int, e as int, 1, 2305843009213693952);
        lemma_abs_mul_le(c1y as int, e as int, 1, 2305843009213693952);
        lemma_abs_mul_le(c2x as int, e as int, 1, 2305843009213693952);
        lemma_abs_mul_le(c2y as int, e as int, 1, 2305843009213693952);
        lemma_abs_mul_le(c1x as int, b2d as int, 1, 10633823966279326983230456482242756608);
        lemma_abs_mul_le(c1y as int, b2d as int, 1, 10633823966279326983230456482242756608);
        lemma_abs_mul_le(c2x as int, b2d as int, 1, 10633823966279326983230456482242756608);
        lemma_abs_mul_le(c2y as int, b2d as int, 1, 10633823966279326983230456482242756608);
    }
    if o1 == Orientation::Collinear && rat_between_exec(mx, e, c1x, 1, b2x, b2d)
        && rat_between_exec(my, e, c1y, 1, b2y, b2d) {
        return true;
    }
    if o2 == Orientation::Collinear && rat_between_exec(mx, e, c2x, 1, b2x, b2d)
        && rat_between_exec(my, e, c2y, 1, b2y, b2d) {
        return true;
    }
    if o3 == Orientation::Collinear && rat_between_exec(c1x, 1, mx, e, c2x, 1)
        && rat_between_exec(c1y, 1, my, e, c2y, 1) {
        return true;
    }
    if o4 == Orientation::Collinear && rat_between_exec(c1x, 1, b2x, b2d, c2x, 1)
        && rat_between_exec(c1y, 1, b2y, b2d, c2y, 1) {
        return true;
    }
    false
}

/// The per-trial decision. Identical points are rejected first, then the
/// first point must lie in the closed unit square; otherwise the answer
/// is whether the perpendicular bisector of the two points crosses the
/// boundary segment nearest to the first point. Deterministic, and every
/// error is a defined per-trial outcome, never a panic.
pub fn has_solution(blue: &Point, red: &Point) -> (r: Result<bool, GeomError>)
    requires
        blue@.d == red@.d,
        bounded(blue@, COORD_LIMIT as int),
        bounded(red@, COORD_LIMIT as int),
    ensures
        r == has_solution_model(blue@, red@),
        r == Result::<bool, GeomError>::Err(GeomError::IdenticalPoints) <==> pt_eq(blue@, red@),
        r == Result::<bool, GeomError>::Err(GeomError::OutOfDomain) <==> (!pt_eq(blue@, red@)
            && !in_domain(blue@)),
        r is Ok <==> (!pt_eq(blue@, red@) && in_domain(blue@)),
        r matches Ok(b) ==> b == seg_intersect_spec(
            pb_model(blue@, red@),
            edge_seg_model(closest_edge_spec(blue@)),
        ),
{
    proof {
        lemma_cancel_eq(blue@.x, red@.x, blue@.d);
        lemma_cancel_eq(blue@.y, red@.y, blue@.d);
    }
    if blue.x == red.x && blue.y == red.y {
        return Err(GeomError::IdenticalPoints);
    }
    match closest_edge(blue) {
        Err(_) => Err(GeomError::OutOfDomain),
        Ok(edge) => Ok(bisector_meets_edge(blue, red, edge)),
    }
}

} // verus!
