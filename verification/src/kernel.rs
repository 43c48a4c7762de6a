//! The geometry kernel: pure operations on points and segments, each
//! proved to compute the exact rational result of its mathematical model.

use vstd::prelude::*;

use crate::arith::in_i128;
use crate::arith::lemma_abs_mul_le;
use crate::arith::lemma_cancel_eq;
use crate::arith::lemma_mul_ge_one;
use crate::model::bounded;
use crate::model::midpoint_model;
use crate::model::on_seg_spec;
use crate::model::orient_spec;
use crate::model::pb_model;
use crate::model::pt_eq;
use crate::model::rat_between;
use crate::model::seg_intersect_spec;
use crate::model::slope_model;
use crate::model::wf;
use crate::model::GeomError;
use crate::model::Orientation;
use crate::model::Point;
use crate::model::Segment;
use crate::model::Slope;

verus! {

/// Magnitude cap (2^60) on numerators and denominators of points handed
/// to `midpoint`, `gradient`, `perpendicular_bisector` and `has_solution`;
/// it keeps every intermediate product inside `i128`.
pub const COORD_LIMIT: i128 = 1152921504606846976;

/// Magnitude cap (2^30) on numerators and denominators of points handed
/// to the generic `orientation`, `on_segment` and `segments_intersect`,
/// whose cleared cross products multiply four such values.
pub const ORIENT_LIMIT: i128 = 1073741824;

/// Component-wise average of two points. No failure mode.
pub fn midpoint(p1: &Point, p2: &Point) -> (m: Point)
    requires
        bounded(p1@, COORD_LIMIT as int),
        bounded(p2@, COORD_LIMIT as int),
    ensures
        m@ == midpoint_model(p1@, p2@),
        wf(m@),
{
    proof {
        lemma_abs_mul_le(p1@.x, p2@.d, 1152921504606846976, 1152921504606846976);
        lemma_abs_mul_le(p2@.x, p1@.d, 1152921504606846976, 1152921504606846976);
        lemma_abs_mul_le(p1@.y, p2@.d, 1152921504606846976, 1152921504606846976);
        lemma_abs_mul_le(p2@.y, p1@.d, 1152921504606846976, 1152921504606846976);
        lemma_abs_mul_le(p1@.d, p2@.d, 1152921504606846976, 1152921504606846976);
        lemma_mul_ge_one(p1@.d, p2@.d);
    }
    Point {
        x: p1.x * p2.d + p2.x * p1.d,
        y: p1.y * p2.d + p2.y * p1.d,
        d: 2 * (p1.d * p2.d),
    }
}

/// Exact equality of two rational positions.
pub fn points_coincide(p: &Point, q: &Point) -> (r: bool)
    requires
        bounded(p@, COORD_LIMIT as int),
        bounded(q@, COORD_LIMIT as int),
    ensures
        r == pt_eq(p@, q@),
{
    proof {
        lemma_abs_mul_le(p@.x, q@.d, 1152921504606846976, 1152921504606846976);
        lemma_abs_mul_le(q@.x, p@.d, 1152921504606846976, 1152921504606846976);
        lemma_abs_mul_le(p@.y, q@.d, 1152921504606846976, 1152921504606846976);
        lemma_abs_mul_le(q@.y, p@.d, 1152921504606846976, 1152921504606846976);
    }
    p.x * q.d == q.x * p.d && p.y * q.d == q.y * p.d
}

/// Gradient `(p2.y - p1.y) / (p2.x - p1.x)`. A vertical line yields
/// `Slope::Infinite`: an expected output, not an error.
pub fn gradient(p1: &Point, p2: &Point) -> (g: Slope)
    requires
        bounded(p1@, COORD_LIMIT as int),
        bounded(p2@, COORD_LIMIT as int),
    ensures
        g@ == slope_model(p1@, p2@),
{
    proof {
        lemma_abs_mul_le(p2@.x, p1@.d, 1152921504606846976, 1152921504606846976);
        lemma_abs_mul_le(p1@.x, p2@.d, 1152921504606846976, 1152921504606846976);
        lemma_abs_mul_le(p2@.y, p1@.d, 1152921504606846976, 1152921504606846976);
        lemma_abs_mul_le(p1@.y, p2@.d, 1152921504606846976, 1152921504606846976);
    }
    let run = p2.x * p1.d - p1.x * p2.d;
    let rise = p2.y * p1.d - p1.y * p2.d;
    if run == 0 {
        Slope::Infinite
    } else if run > 0 {
        Slope::Finite { num: rise, den: run }
    } else {
        Slope::Finite { num: -rise, den: -run }
    }
}

/// The turn of the ordered triple `(p, q, r)`: the sign of the cross
/// product `(q - p) x (r - q)`, compared exactly against zero.
pub fn orientation(p: &Point, q: &Point, r: &Point) -> (o: Orientation)
    requires
        bounded(p@, ORIENT_LIMIT as int),
        bounded(q@, ORIENT_LIMIT as int),
        bounded(r@, ORIENT_LIMIT as int),
    ensures
        o == orient_spec(p@, q@, r@),
{
    proof {
        lemma_abs_mul_le(q@.x, p@.d, 1073741824, 1073741824);
        lemma_abs_mul_le(p@.x, q@.d, 1073741824, 1073741824);
        lemma_abs_mul_le(r@.y, q@.d, 1073741824, 1073741824);
        lemma_abs_mul_le(q@.y, r@.d, 1073741824, 1073741824);
        lemma_abs_mul_le(q@.y, p@.d, 1073741824, 1073741824);
        lemma_abs_mul_le(p@.y, q@.d, 1073741824, 1073741824);
        lemma_abs_mul_le(r@.x, q@.d, 1073741824, 1073741824);
        lemma_abs_mul_le(q@.x, r@.d, 1073741824, 1073741824);
        lemma_abs_mul_le(
            q@.x * p@.d - p@.x * q@.d,
            r@.y * q@.d - q@.y * r@.d,
            2305843009213693952,
            2305843009213693952,
        );
        lemma_abs_mul_le(
            q@.y * p@.d - p@.y * q@.d,
            r@.x * q@.d - q@.x * r@.d,
            2305843009213693952,
            2305843009213693952,
        );
    }
    let t1 = q.x * p.d - p.x * q.d;
    let u1 = r.y * q.d - q.y * r.d;
    let t2 = q.y * p.d - p.y * q.d;
    let u2 = r.x * q.d - q.x * r.d;
    let c = t1 * u1 - t2 * u2;
    if c > 0 {
        Orientation::Clockwise
    } else if c < 0 {
        Orientation::CounterClockwise
    } else {
        Orientation::Collinear
    }
}

/// `b/bd` lies between `a/ad` and `c/cd`, decided by cross-multiplied
/// comparisons; callers guarantee that those products fit in `i128`.
pub(crate) fn rat_between_exec(
    an: i128,
    ad: i128,
    bn: i128,
    bd: i128,
    cn: i128,
    cd: i128,
) -> (r: bool)
    requires
        ad >= 1,
        bd >= 1,
        cd >= 1,
        in_i128(an as int * bd as int),
        in_i128(bn as int * ad as int),
        in_i128(bn as int * cd as int),
        in_i128(cn as int * bd as int),
    ensures
        r == rat_between(an as int, ad as int, bn as int, bd as int, cn as int, cd as int),
{
    (an * bd <= bn * ad && bn * cd <= cn * bd) || (cn * bd <= bn * cd && bn * ad <= an * bd)
}

/// True iff `q` lies within the bounding box spanned by `p` and `r`;
/// used only to resolve collinear orientation cases.
pub fn on_segment(p: &Point, q: &Point, r: &Point) -> (b: bool)
    requires
        bounded(p@, ORIENT_LIMIT as int),
        bounded(q@, ORIENT_LIMIT as int),
        bounded(r@, ORIENT_LIMIT as int),
    ensures
        b == on_seg_spec(p@, q@, r@),
{
    proof {
        lemma_abs_mul_le(p@.x, q@.d, 1073741824, 1073741824);
        lemma_abs_mul_le(q@.x, p@.d, 1073741824, 1073741824);
        lemma_abs_mul_le(q@.x, r@.d, 1073741824, 1073741824);
        lemma_abs_mul_le(r@.x, q@.d, 1073741824, 1073741824);
        lemma_abs_mul_le(p@.y, q@.d, 1073741824, 1073741824);
        lemma_abs_mul_le(q@.y, p@.d, 1073741824, 1073741824);
        lemma_abs_mul_le(q@.y, r@.d, 1073741824, 1073741824);
        lemma_abs_mul_le(r@.y, q@.d, 1073741824, 1073741824);
    }
    rat_between_exec(p.x, p.d, q.x, q.d, r.x, r.d)
        && rat_between_exec(p.y, p.d, q.y, q.d, r.y, r.d)
}

/// The orientation-based segment-intersection test: proper crossings by
/// the straddling rule, collinear overlaps by bounding-box checks;
/// collinear but disjoint segments do not intersect.
pub fn segments_intersect(l1: &Segment, l2: &Segment) -> (r: bool)
    requires
        bounded(l1@.a, ORIENT_LIMIT as int),
        bounded(l1@.b, ORIENT_LIMIT as int),
        bounded(l2@.a, ORIENT_LIMIT as int),
        bounded(l2@.b, ORIENT_LIMIT as int),
    ensures
        r == seg_intersect_spec(l1@, l2@),
{
    let o1 = orientation(&l1.a, &l1.b, &l2.a);
    let o2 = orientation(&l1.a, &l1.b, &l2.b);
    let o3 = orientation(&l2.a, &l2.b, &l1.a);
    let o4 = orientation(&l2.a, &l2.b, &l1.b);
    if o1 != o2 && o3 != o4 {
        return true;
    }
    if o1 == Orientation::Collinear && on_segment(&l1.a, &l2.a, &l1.b) {
        return true;
    }
    if o2 == Orientation::Collinear && on_segment(&l1.a, &l2.b, &l1.b) {
        return true;
    }
    if o3 == Orientation::Collinear && on_segment(&l2.a, &l1.a, &l2.b) {
        return true;
    }
    if o4 == Orientation::Collinear && on_segment(&l2.a, &l1.b, &l2.b) {
        return true;
    }
    false
}

/// The perpendicular bisector of the segment joining two distinct points,
/// as a segment of two points on it: the midpoint, and a second point
/// chosen by explicit guards so that axis-aligned inputs never divide by
/// zero. Identical points are a defined error, not a panic.
pub fn perpendicular_bisector(p1: &Point, p2: &Point) -> (r: Result<Segment, GeomError>)
    requires
        p1@.d == p2@.d,
        bounded(p1@, COORD_LIMIT as int),
        bounded(p2@, COORD_LIMIT as int),
    ensures
        match r {
            Err(e) => e == GeomError::IdenticalPoints && pt_eq(p1@, p2@),
            Ok(s) => {
                &&& !pt_eq(p1@, p2@)
                &&& s@ == pb_model(p1@, p2@)
                &&& pt_eq(s@.a, midpoint_model(p1@, p2@))
                &&& wf(s@.a)
                &&& wf(s@.b)
            },
        },
{
    proof {
        lemma_cancel_eq(p1@.x, p2@.x, p1@.d);
        lemma_cancel_eq(p1@.y, p2@.y, p1@.d);
    }
    if p1.x == p2.x && p1.y == p2.y {
        return Err(GeomError::IdenticalPoints);
    }
    let e = 2 * p1.d;
    let mx = p1.x + p2.x;
    let my = p1.y + p2.y;
    let dx = p2.x - p1.x;
    let dy = p2.y - p1.y;
    let m = Point { x: mx, y: my, d: e };
    proof {
        let mm = midpoint_model(p1@, p2@);
        lemma_abs_mul_le(p1@.d, p2@.d, 1152921504606846976, 1152921504606846976);
        assert((p1@.x + p2@.x) * (2 * (p1@.d * p2@.d)) == (p1@.x * p2@.d + p2@.x * p1@.d) * (2
            * p1@.d)) by (nonlinear_arith)
            requires
                p1@.d == p2@.d,
        ;
        assert((p1@.y + p2@.y) * (2 * (p1@.d * p2@.d)) == (p1@.y * p2@.d + p2@.y * p1@.d) * (2
            * p1@.d)) by (nonlinear_arith)
            requires
                p1@.d == p2@.d,
        ;
    }
    if dx == 0 {
        return Ok(Segment { a: m, b: Point { x: 0, y: my, d: e } });
    }
    if dy == 0 {
        return Ok(Segment { a: m, b: Point { x: mx, y: 0, d: e } });
    }
    proof {
        lemma_abs_mul_le(dx as int, mx as int, 2305843009213693952, 2305843009213693952);
        lemma_abs_mul_le(dy as int, my as int, 2305843009213693952, 2305843009213693952);
        lemma_abs_mul_le(e as int, dy as int, 2305843009213693952, 2305843009213693952);
        if dy > 0 {
            lemma_mul_ge_one(e as int, dy as int);
        } else {
            lemma_mul_ge_one(e as int, -(dy as int));
            assert(e as int * -(dy as int) == -(e as int * dy as int)) by (nonlinear_arith);
        }
    }
    let yn0 = dx * mx + dy * my;
    let yd0 = e * dy;
    if dy > 0 {
        Ok(Segment { a: m, b: Point { x: 0, y: yn0, d: yd0 } })
    } else {
        Ok(Segment { a: m, b: Point { x: 0, y: -yn0, d: -yd0 } })
    }
}

} // verus!
