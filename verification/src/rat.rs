//! Exact rational arithmetic, spec-level helpers and overflow-safe products.
//!
//! Every coordinate in this crate is a rational number: an `i64` numerator
//! paired with a positive `i64` denominator shared by the components of a
//! vector. All geometric predicates reduce to integer sign tests, carried out
//! in `i128` with proven bounds, so no rounding ever happens.

use vstd::prelude::*;
use vstd::arithmetic::mul::*;

verus! {

/// Denominator of the classification tolerance: the tolerance is
/// `1 / EPS_DEN`, the smallest representable binary32 step near 1.
pub const EPS_DEN: i64 = 8388608;

/// Two rationals `an/ad` and `bn/bd` (positive denominators) are equal.
pub open spec fn rat_eq(an: int, ad: int, bn: int, bd: int) -> bool {
    an * bd == bn * ad
}

/// Product of two values bounded in magnitude is bounded by the product of
/// the bounds.
pub proof fn lemma_mul_bound(a: int, b: int, ba: int, bb: int)
    by (nonlinear_arith)
    requires
        -ba <= a <= ba,
        -bb <= b <= bb,
    ensures
        -(ba * bb) <= a * b <= ba * bb,
{
}

/// Multiplies two `i128` values whose magnitudes are known to keep the
/// product representable.
pub(crate) fn muli(a: i128, b: i128, bound: Ghost<(int, int)>) -> (r: i128)
    requires
        -bound@.0 <= a <= bound@.0,
        -bound@.1 <= b <= bound@.1,
        bound@.0 * bound@.1 <= i128::MAX as int,
    ensures
        r == a * b,
        -(bound@.0 * bound@.1) <= r <= bound@.0 * bound@.1,
{
    proof {
        lemma_mul_bound(a as int, b as int, bound@.0, bound@.1);
    }
    a * b
}

/// Multiplies two `i64` values exactly; the result always fits in `i128`.
pub(crate) fn mul64(a: i64, b: i64) -> (r: i128)
    ensures
        r == a * b,
        -0x40000000000000000000000000000000 <= r <= 0x40000000000000000000000000000000,
{
    proof {
        lemma_mul_bound(a as int, b as int, 0x8000000000000000, 0x8000000000000000);
    }
    (a as i128) * (b as i128)
}

/// One coordinate of a parameter-interpolated point, dotted with one
/// normal component, distributes into the two halves of the interpolation.
pub proof fn lemma_dot_coord(n: int, ac: int, bc: int, ad: int, bd: int, s: int, v: int)
    ensures
        n * (ac * s + v * (bc * ad - ac * bd)) == s * (n * ac) + v * ((n * bc) * ad - (n * ac)
            * bd),
{
    let k = bc * ad - ac * bd;
    assert(n * (ac * s + v * k) == n * (ac * s) + n * (v * k)) by (nonlinear_arith);
    assert(n * (ac * s) == s * (n * ac)) by (nonlinear_arith);
    assert(n * (v * k) == v * (n * k)) by (nonlinear_arith);
    assert(n * (bc * ad - ac * bd) == (n * bc) * ad - (n * ac) * bd) by (nonlinear_arith);
}

/// As `lemma_dot_coord`, for a point offset along a direction component.
pub proof fn lemma_dir_coord(n: int, oc: int, dc: int, s: int, v: int)
    ensures
        n * (oc * s + v * dc) == s * (n * oc) + v * (n * dc),
{
    assert(n * (oc * s + v * dc) == n * (oc * s) + n * (v * dc)) by (nonlinear_arith);
    assert(n * (oc * s) == s * (n * oc)) by (nonlinear_arith);
    assert(n * (v * dc) == v * (n * dc)) by (nonlinear_arith);
}

/// A common factor distributes over a sum of three terms.
pub proof fn lemma_factor3(k: int, q1: int, q2: int, q3: int)
    by (nonlinear_arith)
    ensures
        k * q1 + k * q2 + k * q3 == k * (q1 + q2 + q3),
{
}

/// A common factor distributes over a sum of three scaled differences.
pub proof fn lemma_sum_cross(
    v: int,
    q1: int,
    q2: int,
    q3: int,
    p1: int,
    p2: int,
    p3: int,
    ad: int,
    bd: int,
)
    by (nonlinear_arith)
    ensures
        v * (q1 * ad - p1 * bd) + v * (q2 * ad - p2 * bd) + v * (q3 * ad - p3 * bd) == v * ((q1
            + q2 + q3) * ad - (p1 + p2 + p3) * bd),
{
}

/// The interpolation parameter `v / (dp * w)` is chosen so that the dot
/// product of the interpolated point with the normal cancels exactly.
pub proof fn lemma_cut_on(w: int, dd: int, ad: int, dp: int, na: int, v: int)
    by (nonlinear_arith)
    requires
        v == dd * ad - na * dp,
    ensures
        (dp * w) * na + v * w == w * (dd * ad),
        (w * (dd * ad)) * dp == dd * (ad * (dp * w)),
{
}

/// Negating all components of a point negates its plane offset.
pub proof fn lemma_neg_dot(nx: int, ny: int, nz: int, x: int, y: int, z: int, dp: int, dd: int, d: int)
    by (nonlinear_arith)
    ensures
        (nx * -x + ny * -y + nz * -z) * dp - dd * -d == -((nx * x + ny * y + nz * z) * dp - dd
            * d),
{
}

/// One coordinate of a plane-edge cut point, dotted with one normal
/// component, splits into the two corner dot products.
pub proof fn lemma_cross_coord(n: int, ac: int, bc: int, sa: int, sb: int)
    ensures
        n * (ac * sb - bc * sa) == sb * (n * ac) - sa * (n * bc),
{
    assert(n * (ac * sb - bc * sa) == n * (ac * sb) - n * (bc * sa)) by (nonlinear_arith);
    assert(n * (ac * sb) == sb * (n * ac)) by (nonlinear_arith);
    assert(n * (bc * sa) == sa * (n * bc)) by (nonlinear_arith);
}

/// The plane offsets of the two corners cancel exactly at the cut point.
pub proof fn lemma_cut_cancel(na: int, nb: int, dd: int, dp: int, da: int, db: int, sa: int, sb: int)
    requires
        sa == na * dp - dd * da,
        sb == nb * dp - dd * db,
    ensures
        (sb * na - sa * nb) * dp - dd * (da * sb - db * sa) == 0,
{
    assert((sb * na - sa * nb) * dp == sb * (na * dp) - sa * (nb * dp)) by (nonlinear_arith);
    assert(dd * (da * sb - db * sa) == sb * (dd * da) - sa * (dd * db)) by (nonlinear_arith);
    assert(sb * (na * dp) - sb * (dd * da) == sb * sa) by (nonlinear_arith)
        requires
            sa == na * dp - dd * da,
    ;
    assert(sa * (nb * dp) - sa * (dd * db) == sa * sb) by (nonlinear_arith)
        requires
            sb == nb * dp - dd * db,
    ;
    assert(sb * sa == sa * sb) by (nonlinear_arith);
}

/// A product of three positive factors is positive.
pub proof fn lemma_pos3(a: int, b: int, c: int)
    by (nonlinear_arith)
    requires
        a >= 1,
        b >= 1,
        c >= 1,
    ensures
        (a * b) * c >= 1,
{
}

/// A value whose scaled magnitude exceeds a positive threshold is itself
/// strictly signed.
pub proof fn lemma_scaled_sign(s: int, e: int, d: int)
    by (nonlinear_arith)
    requires
        e >= 1,
        d >= 1,
    ensures
        s * e > d ==> s > 0,
        s * e < -d ==> s < 0,
{
}

/// The cut denominator takes the sign of the corner on the positive side.
pub proof fn lemma_cut_den_sign(da: int, db: int, sa: int, sb: int)
    by (nonlinear_arith)
    requires
        da >= 1,
        db >= 1,
    ensures
        sa < 0 && sb > 0 ==> da * sb - db * sa > 0,
        sa > 0 && sb < 0 ==> da * sb - db * sa < 0,
{
}

/// The linear interpolation of one coordinate at the plane-crossing
/// parameter collapses to the symmetric two-corner form.
pub proof fn lemma_interp_collapse(
    ca: int,
    cb: int,
    da: int,
    db: int,
    dp: int,
    na: int,
    nb: int,
    dd: int,
    v: int,
    w: int,
    sa: int,
    sb: int,
)
    requires
        v == dd * da - na * dp,
        w == nb * da - na * db,
        sa == na * dp - dd * da,
        sb == nb * dp - dd * db,
    ensures
        ca * (dp * w) + v * (cb * da - ca * db) == da * (ca * sb - cb * sa),
{
    assert(v == -sa);
    assert((-sa) * (cb * da - ca * db) == -(sa * (cb * da)) + sa * (ca * db)) by (nonlinear_arith);
    assert(da * (nb * dp - dd * db) == da * (nb * dp) - da * (dd * db)) by (nonlinear_arith);
    assert(db * (na * dp - dd * da) == db * (na * dp) - db * (dd * da)) by (nonlinear_arith);
    assert(da * (nb * dp) - db * (na * dp) == dp * (nb * da - na * db)) by (nonlinear_arith);
    assert(da * (dd * db) == db * (dd * da)) by (nonlinear_arith);
    assert(dp * w == da * sb - db * sa);
    assert(ca * (da * sb - db * sa) == ca * (da * sb) - ca * (db * sa)) by (nonlinear_arith);
    assert(ca * (da * sb) == da * (ca * sb)) by (nonlinear_arith);
    assert(sa * (cb * da) == da * (cb * sa)) by (nonlinear_arith);
    assert(sa * (ca * db) == ca * (db * sa)) by (nonlinear_arith);
    assert(da * (ca * sb - cb * sa) == da * (ca * sb) - da * (cb * sa)) by (nonlinear_arith);
}

} // verus!
