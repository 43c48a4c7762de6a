//! Small nonlinear-arithmetic facts shared by the geometry proofs.

use vstd::prelude::*;

verus! {

/// The integer `v` fits in an `i128`.
pub open spec fn in_i128(v: int) -> bool {
    i128::MIN <= v <= i128::MAX
}

/// Bounds on the factors bound the product.
pub proof fn lemma_abs_mul_le(a: int, b: int, la: int, lb: int) by (nonlinear_arith)
    requires
        -la <= a <= la,
        -lb <= b <= lb,
        0 <= la,
        0 <= lb,
    ensures
        -(la * lb) <= a * b <= la * lb,
{
}

/// A product of numbers at least one is at least one.
pub proof fn lemma_mul_ge_one(a: int, b: int) by (nonlinear_arith)
    requires
        a >= 1,
        b >= 1,
    ensures
        a * b >= 1,
{
}

/// Multiplying by a positive factor preserves the sign.
pub proof fn lemma_pos_scale_sign(t: int, v: int) by (nonlinear_arith)
    requires
        t > 0,
    ensures
        t * v > 0 <==> v > 0,
        t * v < 0 <==> v < 0,
{
}

/// The sign of a product, from the signs of its factors.
pub proof fn lemma_sign_product(a: int, b: int) by (nonlinear_arith)
    ensures
        a * b > 0 <==> ((a > 0 && b > 0) || (a < 0 && b < 0)),
        a * b < 0 <==> ((a > 0 && b < 0) || (a < 0 && b > 0)),
{
}

/// Products regroup: `(a*b)*c == a*(b*c)`.
pub proof fn lemma_mul_assoc(a: int, b: int, c: int) by (nonlinear_arith)
    ensures
        (a * b) * c == a * (b * c),
{
}

/// A common right factor comes out of a difference.
pub proof fn lemma_factor_out(a: int, b: int, c: int) by (nonlinear_arith)
    ensures
        a * c - b * c == c * (a - b),
{
}

/// A common left factor comes out of a difference.
pub proof fn lemma_distrib_sub(c: int, u: int, v: int) by (nonlinear_arith)
    ensures
        c * u - c * v == c * (u - v),
{
}

/// A negated factor negates the product.
pub proof fn lemma_mul_neg(a: int, b: int) by (nonlinear_arith)
    ensures
        a * -b == -(a * b),
        (-a) * b == -(a * b),
        (-a) * -b == a * b,
{
}

/// Expanding a negated product of sums: `(-a)*(-k - b) == a*k + a*b`.
pub proof fn lemma_neg_distrib(a: int, k: int, b: int) by (nonlinear_arith)
    ensures
        (-a) * (-k - b) == a * k + a * b,
{
}

/// Products commute.
pub proof fn lemma_mul_comm(a: int, b: int) by (nonlinear_arith)
    ensures
        a * b == b * a,
{
}

/// Products of pairs regroup: `(a*x)*(b*y) == (a*b)*(x*y)`.
pub proof fn lemma_mul4(a: int, x: int, b: int, y: int)
    ensures
        (a * x) * (b * y) == (a * b) * (x * y),
{
    lemma_mul_assoc(a, x, b * y);
    lemma_mul_assoc(x, b, y);
    lemma_mul_comm(x, b);
    lemma_mul_assoc(b, x, y);
    lemma_mul_assoc(a, b, x * y);
}

/// A common right factor distributes over a sum.
pub proof fn lemma_distrib_add(w: int, u: int, v: int) by (nonlinear_arith)
    ensures
        (u + v) * w == u * w + v * w,
{
}

/// Scaling all four factors of a cleared cross product by `t` scales the
/// whole expression by `t * t`.
pub proof fn lemma_scale_cross(t: int, f1: int, f2: int, f3: int, f4: int)
    ensures
        (t * f1) * (t * f2) - (t * f3) * (t * f4) == (t * t) * (f1 * f2 - f3 * f4),
{
    lemma_mul4(t, f1, t, f2);
    lemma_mul4(t, f3, t, f4);
    lemma_distrib_sub(t * t, f1 * f2, f3 * f4);
}

/// A factor of a cleared cross product, after translating both points by
/// the offset `off / td`, equals `td * td` times the original factor.
pub proof fn lemma_translated_factor(a: int, ad: int, b: int, bd: int, off: int, td: int)
    ensures
        (a * td + off * ad) * (bd * td) - (b * td + off * bd) * (ad * td) == (td * td) * (a * bd
            - b * ad),
{
    lemma_distrib_add(bd * td, a * td, off * ad);
    lemma_distrib_add(ad * td, b * td, off * bd);
    lemma_mul4(a, td, bd, td);
    lemma_mul4(b, td, ad, td);
    lemma_mul4(off, ad, bd, td);
    lemma_mul_comm(a * bd, td * td);
    lemma_mul_comm(b * ad, td * td);
    lemma_distrib_sub(td * td, a * bd, b * ad);
}

/// The shared denominator `e` of the first two points factors out of the
/// cleared cross product against an integer third point.
pub proof fn lemma_shared_cross(px: int, py: int, qx: int, qy: int, e: int, cx: int, cy: int)
    ensures
        (qx * e - px * e) * (cy * e - qy * 1) - (qy * e - py * e) * (cx * e - qx * 1) == e * ((qx
            - px) * (cy * e - qy) - (qy - py) * (cx * e - qx)),
{
    lemma_factor_out(qx, px, e);
    lemma_factor_out(qy, py, e);
    lemma_mul_assoc(e, qx - px, cy * e - qy);
    lemma_mul_assoc(e, qy - py, cx * e - qx);
    lemma_distrib_sub(e, (qx - px) * (cy * e - qy), (qy - py) * (cx * e - qx));
}

/// The cleared cross product of the midpoint `(mx,my)/e`, the bisector
/// intercept `(0, yn/yd)` with `yn = dx*mx + dy*my` and `yd = e*dy`, and
/// an integer corner `(cx,cy)` factors as `e * dy * mx * k`.
pub proof fn lemma_intercept_cross(
    mx: int,
    my: int,
    dx: int,
    dy: int,
    e: int,
    cx: int,
    cy: int,
    yn: int,
    yd: int,
)
    requires
        yn == dx * mx + dy * my,
        yd == e * dy,
    ensures
        (0 * e - mx * yd) * (cy * yd - yn * 1) - (yn * e - my * yd) * (cx * yd - 0 * 1) == e * (dy
            * (mx * (yn - e * (cy * dy + cx * dx)))),
{
    let k = yn - e * (cy * dy + cx * dx);
    assert(yn * e - my * yd == e * (dx * mx)) by (nonlinear_arith)
        requires
            yn == dx * mx + dy * my,
            yd == e * dy,
    ;
    assert(cy * yd - yn == -k - e * (cx * dx)) by (nonlinear_arith)
        requires
            yd == e * dy,
            k == yn - e * (cy * dy + cx * dx),
    ;
    lemma_mul_neg(mx, yd);
    assert((0 * e - mx * yd) * (cy * yd - yn * 1) == (-(mx * yd)) * (-k - e * (cx * dx)));
    lemma_neg_distrib(mx * yd, k, e * (cx * dx));
    assert((mx * yd) * (e * (cx * dx)) == (e * (dx * mx)) * (cx * yd)) by (nonlinear_arith);
    assert((mx * yd) * k == e * (dy * (mx * k))) by (nonlinear_arith)
        requires
            yd == e * dy,
    ;
}

/// The same factoring with the intercept's stored numerator and
/// denominator negated (the normalisation used when `dy < 0`).
pub proof fn lemma_intercept_cross_neg(
    mx: int,
    my: int,
    dx: int,
    dy: int,
    e: int,
    cx: int,
    cy: int,
    yn: int,
    yd: int,
)
    requires
        yn == dx * mx + dy * my,
        yd == e * dy,
    ensures
        (0 * e - mx * -yd) * (cy * -yd - -yn * 1) - (-yn * e - my * -yd) * (cx * -yd - 0 * 1) == e
            * (dy * (mx * (yn - e * (cy * dy + cx * dx)))),
{
    lemma_intercept_cross(mx, my, dx, dy, e, cx, cy, yn, yd);
    lemma_mul_neg(mx, yd);
    lemma_mul_neg(cy, yd);
    lemma_mul_neg(yn, e);
    lemma_mul_neg(my, yd);
    lemma_mul_neg(cx, yd);
    lemma_mul_neg(
        0 * e - mx * yd,
        cy * yd - yn * 1,
    );
    lemma_mul_neg(
        yn * e - my * yd,
        cx * yd - 0 * 1,
    );
    assert((0 * e - mx * -yd) == -(0 * e - mx * yd));
    assert((cy * -yd - -yn * 1) == -(cy * yd - yn * 1));
    assert((-yn * e - my * -yd) == -(yn * e - my * yd));
    assert((cx * -yd - 0 * 1) == -(cx * yd - 0 * 1));
}

/// A positive common factor cancels in an equality.
pub proof fn lemma_cancel_eq(a: int, b: int, d: int) by (nonlinear_arith)
    requires
        d >= 1,
    ensures
        a * d == b * d <==> a == b,
{
}

} // verus!
