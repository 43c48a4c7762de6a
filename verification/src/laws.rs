//! General laws of the geometry kernel, stated over the mathematical
//! model and proved once for all inputs.

use vstd::prelude::*;

use crate::arith::lemma_distrib_sub;
use crate::arith::lemma_mul4;
use crate::arith::lemma_mul_ge_one;
use crate::arith::lemma_translated_factor;
use crate::arith::lemma_mul_neg;
use crate::arith::lemma_pos_scale_sign;
use crate::arith::lemma_scale_cross;
use crate::model::cross_num;
use crate::model::has_solution_model;
use crate::model::in_domain;
use crate::model::is_center;
use crate::model::midpoint_model;
use crate::model::orient_spec;
use crate::model::region_bottom;
use crate::model::region_left;
use crate::model::region_right;
use crate::model::region_top;
use crate::model::closest_edge_spec;
use crate::model::seg_intersect_spec;
use crate::model::slope_model;
use crate::model::wf;
use crate::model::Edge;
use crate::model::GeomError;
use crate::model::Orientation;
use crate::model::PointModel;
use crate::model::SegModel;

verus! {

/// A point scaled uniformly about the origin by the positive rational
/// `sn / sd`.
pub open spec fn scale_model(p: PointModel, sn: int, sd: int) -> PointModel {
    PointModel { x: sn * p.x, y: sn * p.y, d: sd * p.d }
}

/// A point translated by the rational offset `(txn / td, tyn / td)`.
pub open spec fn translate_model(p: PointModel, txn: int, tyn: int, td: int) -> PointModel {
    PointModel { x: p.x * td + txn * p.d, y: p.y * td + tyn * p.d, d: p.d * td }
}

/// A point reflected across the y-axis.
pub open spec fn reflect_model(p: PointModel) -> PointModel {
    PointModel { x: -p.x, y: p.y, d: p.d }
}

/// The opposite turn: clockwise and counter-clockwise swap, collinear
/// stays.
pub open spec fn flip(o: Orientation) -> Orientation {
    match o {
        Orientation::Clockwise => Orientation::CounterClockwise,
        Orientation::CounterClockwise => Orientation::Clockwise,
        Orientation::Collinear => Orientation::Collinear,
    }
}

/// Law: the orientation of a point triple is invariant under uniform
/// scaling of all three points by any positive rational factor.
pub proof fn lemma_orientation_scale_invariant(
    p: PointModel,
    q: PointModel,
    r: PointModel,
    sn: int,
    sd: int,
)
    requires
        wf(p),
        wf(q),
        wf(r),
        sn >= 1,
        sd >= 1,
    ensures
        orient_spec(scale_model(p, sn, sd), scale_model(q, sn, sd), scale_model(r, sn, sd))
            == orient_spec(p, q, r),
{
    let t = sn * sd;
    let f1 = q.x * p.d - p.x * q.d;
    let f2 = r.y * q.d - q.y * r.d;
    let f3 = q.y * p.d - p.y * q.d;
    let f4 = r.x * q.d - q.x * r.d;
    lemma_mul4(sn, q.x, sd, p.d);
    lemma_mul4(sn, p.x, sd, q.d);
    lemma_mul4(sn, r.y, sd, q.d);
    lemma_mul4(sn, q.y, sd, r.d);
    lemma_mul4(sn, q.y, sd, p.d);
    lemma_mul4(sn, p.y, sd, q.d);
    lemma_mul4(sn, r.x, sd, q.d);
    lemma_mul4(sn, q.x, sd, r.d);
    lemma_distrib_sub(t, q.x * p.d, p.x * q.d);
    lemma_distrib_sub(t, r.y * q.d, q.y * r.d);
    lemma_distrib_sub(t, q.y * p.d, p.y * q.d);
    lemma_distrib_sub(t, r.x * q.d, q.x * r.d);
    lemma_scale_cross(t, f1, f2, f3, f4);
    lemma_mul_ge_one(sn, sd);
    lemma_mul_ge_one(t, t);
    lemma_pos_scale_sign(t * t, f1 * f2 - f3 * f4);
}

/// Law: the orientation of a point triple is invariant under translating
/// all three points by one rational offset.
pub proof fn lemma_orientation_translate_invariant(
    p: PointModel,
    q: PointModel,
    r: PointModel,
    txn: int,
    tyn: int,
    td: int,
)
    requires
        wf(p),
        wf(q),
        wf(r),
        td >= 1,
    ensures
        orient_spec(
            translate_model(p, txn, tyn, td),
            translate_model(q, txn, tyn, td),
            translate_model(r, txn, tyn, td),
        ) == orient_spec(p, q, r),
{
    let t = td * td;
    let f1 = q.x * p.d - p.x * q.d;
    let f2 = r.y * q.d - q.y * r.d;
    let f3 = q.y * p.d - p.y * q.d;
    let f4 = r.x * q.d - q.x * r.d;
    lemma_translated_factor(q.x, q.d, p.x, p.d, txn, td);
    lemma_translated_factor(r.y, r.d, q.y, q.d, tyn, td);
    lemma_translated_factor(q.y, q.d, p.y, p.d, tyn, td);
    lemma_translated_factor(r.x, r.d, q.x, q.d, txn, td);
    lemma_scale_cross(t, f1, f2, f3, f4);
    lemma_mul_ge_one(td, td);
    lemma_mul_ge_one(t, t);
    lemma_pos_scale_sign(t * t, f1 * f2 - f3 * f4);
}

/// Law: reflecting all three points across the y-axis flips clockwise
/// and counter-clockwise turns and keeps collinear triples collinear.
pub proof fn lemma_orientation_reflect_flips(p: PointModel, q: PointModel, r: PointModel)
    requires
        wf(p),
        wf(q),
        wf(r),
    ensures
        orient_spec(reflect_model(p), reflect_model(q), reflect_model(r)) == flip(
            orient_spec(p, q, r),
        ),
{
    let f1 = q.x * p.d - p.x * q.d;
    let f2 = r.y * q.d - q.y * r.d;
    let f3 = q.y * p.d - p.y * q.d;
    let f4 = r.x * q.d - q.x * r.d;
    lemma_mul_neg(q.x, p.d);
    lemma_mul_neg(p.x, q.d);
    lemma_mul_neg(r.x, q.d);
    lemma_mul_neg(q.x, r.d);
    assert((-q.x) * p.d - (-p.x) * q.d == -f1);
    assert((-r.x) * q.d - (-q.x) * r.d == -f4);
    lemma_mul_neg(f1, f2);
    lemma_mul_neg(f3, f4);
    assert(cross_num(reflect_model(p), reflect_model(q), reflect_model(r)) == -(f1 * f2 - f3
        * f4));
}

/// Law: the midpoint of two points does not depend on their order.
pub proof fn lemma_midpoint_symmetric(p: PointModel, q: PointModel)
    ensures
        midpoint_model(p, q) == midpoint_model(q, p),
{
    assert(p.d * q.d == q.d * p.d) by (nonlinear_arith);
}

/// Law: the gradient is direction-symmetric: both orders of the two
/// points give the same slope, and a vertical pair is `Infinite` in both
/// orders.
pub proof fn lemma_gradient_symmetric(p: PointModel, q: PointModel)
    ensures
        slope_model(p, q) == slope_model(q, p),
{
}

/// Law: two coincident points never define a bisector: the decision
/// procedure rejects them with `IdenticalPoints`, whatever the point.
pub proof fn lemma_identical_points_rejected(p: PointModel)
    ensures
        has_solution_model(p, p) == Result::<bool, GeomError>::Err(GeomError::IdenticalPoints),
{
}

/// Law: the diagonal partition of the unit square is exhaustive and
/// exclusive: every point of the closed square lies in exactly one of the
/// four edge regions, except the exact center, which lies in none and is
/// assigned to `Bottom` by special case.
pub proof fn lemma_closest_edge_partition(p: PointModel)
    requires
        wf(p),
        in_domain(p),
    ensures
        region_bottom(p) || region_left(p) || region_top(p) || region_right(p) || is_center(p),
        region_bottom(p) ==> !region_left(p) && !region_top(p) && !region_right(p) && !is_center(
            p,
        ),
        region_left(p) ==> !region_top(p) && !region_right(p) && !is_center(p),
        region_top(p) ==> !region_right(p) && !is_center(p),
        region_right(p) ==> !is_center(p),
        region_bottom(p) ==> closest_edge_spec(p) == Edge::Bottom,
        region_left(p) ==> closest_edge_spec(p) == Edge::Left,
        region_top(p) ==> closest_edge_spec(p) == Edge::Top,
        region_right(p) ==> closest_edge_spec(p) == Edge::Right,
        is_center(p) ==> closest_edge_spec(p) == Edge::Bottom,
{
}

/// Law: the segment-intersection test is symmetric in its two segments.
pub proof fn lemma_segments_intersect_symmetric(l1: SegModel, l2: SegModel)
    ensures
        seg_intersect_spec(l1, l2) == seg_intersect_spec(l2, l1),
{
}

} // verus!
