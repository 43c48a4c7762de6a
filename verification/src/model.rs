//! Data types of the geometry kernel and their mathematical model.
//!
//! A coordinate is an exact rational: a `Point` stores integer numerators
//! `x`, `y` over one positive denominator `d`, so its position is
//! `(x / d, y / d)`. The spec-level model works on unbounded integers, so
//! every contract speaks about exact rational arithmetic; the executable
//! code is proved to compute the same values without overflowing `i128`.

use vstd::prelude::*;

verus! {

/// A point with exact rational coordinates `(x / d, y / d)`, `d >= 1`.
#[derive(Clone, Copy, Debug, PartialEq, Eq, Structural)]
pub struct Point {
    pub x: i128,
    pub y: i128,
    pub d: i128,
}

/// A finite line piece given by its two endpoints.
#[derive(Clone, Copy, Debug, PartialEq, Eq, Structural)]
pub struct Segment {
    pub a: Point,
    pub b: Point,
}

/// The turn formed by an ordered triple of points.
#[derive(Clone, Copy, Debug, PartialEq, Eq, Structural)]
pub enum Orientation {
    Collinear,
    Clockwise,
    CounterClockwise,
}

/// One of the four boundary segments of the unit square.
#[derive(Clone, Copy, Debug, PartialEq, Eq, Structural)]
pub enum Edge {
    Top,
    Bottom,
    Left,
    Right,
}

/// The two recoverable failures of the geometric decision procedure.
#[derive(Clone, Copy, Debug, PartialEq, Eq, Structural)]
pub enum GeomError {
    /// The two points coincide, so they define no line.
    IdenticalPoints,
    /// A classified point lies outside the closed unit square.
    OutOfDomain,
}

/// The gradient of a line through two points: a finite rational slope,
/// or `Infinite` for a vertical line.
#[derive(Clone, Copy, Debug, PartialEq, Eq, Structural)]
pub enum Slope {
    Infinite,
    Finite { num: i128, den: i128 },
}

/// Mathematical image of a `Point`: the same triple over unbounded integers.
pub struct PointModel {
    pub x: int,
    pub y: int,
    pub d: int,
}

/// Mathematical image of a `Segment`.
pub struct SegModel {
    pub a: PointModel,
    pub b: PointModel,
}

/// Mathematical image of a `Slope`.
pub enum SlopeModel {
    Infinite,
    Finite { num: int, den: int },
}

impl View for Point {
    type V = PointModel;

    open spec fn view(&self) -> PointModel {
        PointModel { x: self.x as int, y: self.y as int, d: self.d as int }
    }
}

impl View for Segment {
    type V = SegModel;

    open spec fn view(&self) -> SegModel {
        SegModel { a: self.a@, b: self.b@ }
    }
}

impl View for Slope {
    type V = SlopeModel;

    open spec fn view(&self) -> SlopeModel {
        match *self {
            Slope::Infinite => SlopeModel::Infinite,
            Slope::Finite { num, den } => SlopeModel::Finite {
                num: num as int,
                den: den as int,
            },
        }
    }
}

/// A well-formed point has a positive denominator.
pub open spec fn wf(p: PointModel) -> bool {
    p.d >= 1
}

/// Numerators and denominator all bounded by `m` in magnitude.
pub open spec fn bounded(p: PointModel, m: int) -> bool {
    &&& -m <= p.x <= m
    &&& -m <= p.y <= m
    &&& 1 <= p.d <= m
}

/// Exact equality of the rational positions (no epsilon tolerance).
pub open spec fn pt_eq(p: PointModel, q: PointModel) -> bool {
    &&& p.x * q.d == q.x * p.d
    &&& p.y * q.d == q.y * p.d
}

/// The point lies in the closed unit square `[0,1] x [0,1]`.
pub open spec fn in_domain(p: PointModel) -> bool {
    &&& 0 <= p.x <= p.d
    &&& 0 <= p.y <= p.d
}

/// `a/ad <= b/bd`, for positive denominators.
pub open spec fn rat_le(an: int, ad: int, bn: int, bd: int) -> bool {
    an * bd <= bn * ad
}

/// `b/bd` lies between `a/ad` and `c/cd` (in either order).
pub open spec fn rat_between(an: int, ad: int, bn: int, bd: int, cn: int, cd: int) -> bool {
    ||| (rat_le(an, ad, bn, bd) && rat_le(bn, bd, cn, cd))
    ||| (rat_le(cn, cd, bn, bd) && rat_le(bn, bd, an, ad))
}

/// The cross product `(q - p) x (r - q)` cleared of denominators:
/// multiplying the real cross product by the positive factor
/// `p.d * q.d * q.d * r.d` yields this integer.
pub open spec fn cross_num(p: PointModel, q: PointModel, r: PointModel) -> int {
    (q.x * p.d - p.x * q.d) * (r.y * q.d - q.y * r.d)
        - (q.y * p.d - p.y * q.d) * (r.x * q.d - q.x * r.d)
}

/// Classify an integer sign as an orientation: positive is `Clockwise`,
/// negative is `CounterClockwise`, zero is `Collinear`.
pub open spec fn orient_of(c: int) -> Orientation {
    if c > 0 {
        Orientation::Clockwise
    } else if c < 0 {
        Orientation::CounterClockwise
    } else {
        Orientation::Collinear
    }
}

/// Orientation of the ordered triple `(p, q, r)`.
pub open spec fn orient_spec(p: PointModel, q: PointModel, r: PointModel) -> Orientation {
    orient_of(cross_num(p, q, r))
}

/// `q` lies within the bounding box spanned by `p` and `r`.
pub open spec fn on_seg_spec(p: PointModel, q: PointModel, r: PointModel) -> bool {
    &&& rat_between(p.x, p.d, q.x, q.d, r.x, r.d)
    &&& rat_between(p.y, p.d, q.y, q.d, r.y, r.d)
}

/// The classic orientation-based segment-intersection test: the general
/// straddling case, plus the four collinear bounding-box cases.
pub open spec fn seg_intersect_spec(l1: SegModel, l2: SegModel) -> bool {
    let o1 = orient_spec(l1.a, l1.b, l2.a);
    let o2 = orient_spec(l1.a, l1.b, l2.b);
    let o3 = orient_spec(l2.a, l2.b, l1.a);
    let o4 = orient_spec(l2.a, l2.b, l1.b);
    ||| (o1 != o2 && o3 != o4)
    ||| (o1 == Orientation::Collinear && on_seg_spec(l1.a, l2.a, l1.b))
    ||| (o2 == Orientation::Collinear && on_seg_spec(l1.a, l2.b, l1.b))
    ||| (o3 == Orientation::Collinear && on_seg_spec(l2.a, l1.a, l2.b))
    ||| (o4 == Orientation::Collinear && on_seg_spec(l2.a, l1.b, l2.b))
}

/// Component-wise average of two points.
pub open spec fn midpoint_model(p: PointModel, q: PointModel) -> PointModel {
    PointModel {
        x: p.x * q.d + q.x * p.d,
        y: p.y * q.d + q.y * p.d,
        d: 2 * (p.d * q.d),
    }
}

/// Gradient `(q.y - p.y) / (q.x - p.x)`, with the denominator normalised
/// positive; a vertical line yields `Infinite`.
pub open spec fn slope_model(p: PointModel, q: PointModel) -> SlopeModel {
    let dxn = q.x * p.d - p.x * q.d;
    let dyn_ = q.y * p.d - p.y * q.d;
    if dxn == 0 {
        SlopeModel::Infinite
    } else if dxn > 0 {
        SlopeModel::Finite { num: dyn_, den: dxn }
    } else {
        SlopeModel::Finite { num: -dyn_, den: -dxn }
    }
}

/// The second point of the perpendicular bisector in the general case:
/// the bisector's y-intercept `(0, (dx*mx + dy*my) / (e*dy))`, stored with
/// its denominator normalised positive.
pub open spec fn bis_intercept_model(mx: int, my: int, dx: int, dy: int, e: int) -> PointModel {
    let yn = dx * mx + dy * my;
    let yd = e * dy;
    if dy > 0 {
        PointModel { x: 0, y: yn, d: yd }
    } else {
        PointModel { x: 0, y: -yn, d: -yd }
    }
}

/// The perpendicular bisector of two distinct points that share one
/// denominator, represented by two points that lie on it: the midpoint,
/// and a second point chosen per the axis-aligned guards.
pub open spec fn pb_model(p1: PointModel, p2: PointModel) -> SegModel {
    let e = 2 * p1.d;
    let mx = p1.x + p2.x;
    let my = p1.y + p2.y;
    let dx = p2.x - p1.x;
    let dy = p2.y - p1.y;
    let m = PointModel { x: mx, y: my, d: e };
    if dx == 0 {
        // vertical source segment: horizontal bisector through m
        SegModel { a: m, b: PointModel { x: 0, y: my, d: e } }
    } else if dy == 0 {
        // horizontal source segment: vertical bisector through m
        SegModel { a: m, b: PointModel { x: mx, y: 0, d: e } }
    } else {
        SegModel { a: m, b: bis_intercept_model(mx, my, dx, dy, e) }
    }
}

/// Region owning the bottom edge: `y <= x` and `y < 1 - x`.
pub open spec fn region_bottom(p: PointModel) -> bool {
    p.y <= p.x && p.x + p.y < p.d
}

/// Region owning the left edge: `y > x` and `y <= 1 - x`.
pub open spec fn region_left(p: PointModel) -> bool {
    p.y > p.x && p.x + p.y <= p.d
}

/// Region owning the top edge: `y >= x` and `y > 1 - x`.
pub open spec fn region_top(p: PointModel) -> bool {
    p.y >= p.x && p.x + p.y > p.d
}

/// Region owning the right edge: `y < x` and `y >= 1 - x`.
pub open spec fn region_right(p: PointModel) -> bool {
    p.y < p.x && p.x + p.y >= p.d
}

/// The exact center `(1/2, 1/2)` of the unit square.
pub open spec fn is_center(p: PointModel) -> bool {
    2 * p.x == p.d && 2 * p.y == p.d
}

/// The edge nearest to an interior point, by the diagonal partition;
/// the exact center is assigned to `Bottom` by special case.
pub open spec fn closest_edge_spec(p: PointModel) -> Edge {
    if region_bottom(p) {
        Edge::Bottom
    } else if region_left(p) {
        Edge::Left
    } else if region_top(p) {
        Edge::Top
    } else if region_right(p) {
        Edge::Right
    } else {
        Edge::Bottom
    }
}

/// A corner of the unit square as an integer point.
pub open spec fn corner_model(cx: int, cy: int) -> PointModel {
    PointModel { x: cx, y: cy, d: 1 }
}

/// The boundary segment of the unit square that an edge names.
pub open spec fn edge_seg_model(e: Edge) -> SegModel {
    match e {
        Edge::Bottom => SegModel { a: corner_model(0, 0), b: corner_model(1, 0) },
        Edge::Left => SegModel { a: corner_model(0, 0), b: corner_model(0, 1) },
        Edge::Top => SegModel { a: corner_model(0, 1), b: corner_model(1, 1) },
        Edge::Right => SegModel { a: corner_model(1, 0), b: corner_model(1, 1) },
    }
}

/// The full per-trial decision: identical points are rejected first, then
/// the classified point must lie in the unit square, and otherwise the
/// answer is whether the perpendicular bisector of the two points crosses
/// the boundary segment nearest to the first point.
pub open spec fn has_solution_model(blue: PointModel, red: PointModel) -> Result<bool, GeomError> {
    if pt_eq(blue, red) {
        Err(GeomError::IdenticalPoints)
    } else if !in_domain(blue) {
        Err(GeomError::OutOfDomain)
    } else {
        Ok(seg_intersect_spec(
            pb_model(blue, red),
            edge_seg_model(closest_edge_spec(blue)),
        ))
    }
}

} // verus!
