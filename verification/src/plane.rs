//! An infinite plane: point classification and segment/ray intersection.
//!
//! All quantities are exact rationals. A dot product of two vectors is the
//! integer `dot_num` over the positive denominator `a.d * b.d`, so every
//! comparison in this module is an integer sign test, carried out in `i128`
//! under the magnitude limits stated by each function.

use vstd::prelude::*;
use crate::rat::{EPS_DEN, muli, rat_eq, lemma_interp_collapse, lemma_dot_coord, lemma_dir_coord, lemma_factor3, lemma_sum_cross, lemma_cut_on, lemma_neg_dot};
use crate::side::Side;
use crate::vector::{Vec3, dot_num, dot3};

verus! {

/// Largest coordinate magnitude accepted by `Plane::side`.
pub const SIDE_LIMIT: i64 = 0x100000000;

/// Largest coordinate magnitude accepted by `Plane::intersect_segment`.
pub const SEGMENT_LIMIT: i64 = 0x800;

/// Largest coordinate magnitude accepted by `Plane::intersect_ray`.
pub const RAY_LIMIT: i64 = 0x4000;

/// Magnitude bound on the fields of every point the intersections return.
pub const POINT_LIMIT: i64 = 0x1000000000000000;

/// An infinitely large plane through `point` with direction `normal`.
///
/// `normal` need not be unit length: every predicate divides through its own
/// dot products, so scaling `normal` changes no result while it stays
/// non-zero.
#[derive(Clone, Copy, Debug)]
pub struct Plane {
    pub point: Vec3,
    pub normal: Vec3,
}

/// Numerator of `dot(normal, plane.point)`, over `normal.d * point.d`.
pub open spec fn plane_d_num(p: Plane) -> int {
    dot_num(p.normal, p.point)
}

/// Numerator of `dot(normal, v - point)`, over `side_den(p, v)`.
pub open spec fn side_num(p: Plane, v: Vec3) -> int {
    dot_num(p.normal, v) * p.point.d - plane_d_num(p) * v.d
}

/// Positive denominator matching `side_num`.
pub open spec fn side_den(p: Plane, v: Vec3) -> int {
    p.normal.d * v.d * p.point.d
}

/// Which side of `p` the point `v` lies on: the sign of
/// `dot(normal, v - point)` compared against the tolerance `1 / EPS_DEN`.
pub open spec fn side_spec(p: Plane, v: Vec3) -> Side {
    if side_num(p, v) * EPS_DEN < -side_den(p, v) {
        Side::Below
    } else if side_num(p, v) * EPS_DEN > side_den(p, v) {
        Side::Above
    } else {
        Side::Coplanar
    }
}

/// Numerator of `dot(normal, b - a)` scaled by the denominators of `a` and
/// `b`: zero exactly when the segment from `a` to `b` is parallel to `p`.
pub open spec fn seg_w(p: Plane, a: Vec3, b: Vec3) -> int {
    dot_num(p.normal, b) * a.d - dot_num(p.normal, a) * b.d
}

/// Numerator of `dot(normal, point - a)` scaled by denominators: the
/// unnormalised offset from `a` back to the plane.
pub open spec fn seg_v(p: Plane, a: Vec3) -> int {
    plane_d_num(p) * a.d - dot_num(p.normal, a) * p.point.d
}

/// The segment from `a` to `b` crosses `p` within its span: it is not
/// parallel, and the crossing parameter `t = seg_v * b.d / (point.d * seg_w)`
/// lies in `[0, 1]`.
pub open spec fn seg_hit(p: Plane, a: Vec3, b: Vec3) -> bool {
    let tn = seg_v(p, a) * b.d;
    let td = p.point.d * seg_w(p, a, b);
    &&& seg_w(p, a, b) != 0
    &&& if td > 0 {
        0 <= tn <= td
    } else {
        td <= tn <= 0
    }
}

/// Field-level value of the segment crossing point `a + t * (b - a)`:
/// numerators `(x, y, z)` and denominator, sign-normalised so the
/// denominator is positive.
pub open spec fn seg_point(p: Plane, a: Vec3, b: Vec3) -> (int, int, int, int) {
    let w = seg_w(p, a, b);
    let v = seg_v(p, a);
    let x = a.x * (p.point.d * w) + v * (b.x * a.d - a.x * b.d);
    let y = a.y * (p.point.d * w) + v * (b.y * a.d - a.y * b.d);
    let z = a.z * (p.point.d * w) + v * (b.z * a.d - a.z * b.d);
    let d = a.d * (p.point.d * w);
    if d > 0 {
        (x, y, z, d)
    } else {
        (-x, -y, -z, -d)
    }
}

/// The ray from `o` along `dir` hits `p`: the directions are not within
/// tolerance of parallel, and the hit parameter
/// `t = seg_v(p, o) * dir.d / (point.d * o.d * dot_num(normal, dir))`
/// is at least the tolerance `1 / EPS_DEN`.
pub open spec fn ray_hit(p: Plane, o: Vec3, dir: Vec3) -> bool {
    let nd = dot_num(p.normal, dir);
    let tl = seg_v(p, o) * dir.d * EPS_DEN;
    let q = p.point.d * o.d * nd;
    &&& (if nd >= 0 {
        nd
    } else {
        -nd
    }) * EPS_DEN > p.normal.d * dir.d
    &&& if nd > 0 {
        tl >= q
    } else {
        tl <= q
    }
}

/// Field-level value of the ray hit point `o + t * dir`, sign-normalised so
/// the denominator is positive.
pub open spec fn ray_point(p: Plane, o: Vec3, dir: Vec3) -> (int, int, int, int) {
    let nd = dot_num(p.normal, dir);
    let v = seg_v(p, o);
    let x = o.x * (p.point.d * nd) + v * dir.x;
    let y = o.y * (p.point.d * nd) + v * dir.y;
    let z = o.z * (p.point.d * nd) + v * dir.z;
    let d = o.d * (p.point.d * nd);
    if d > 0 {
        (x, y, z, d)
    } else {
        (-x, -y, -z, -d)
    }
}

impl Plane {
    pub open spec fn wf(self) -> bool {
        self.point.wf() && self.normal.wf()
    }

    pub open spec fn in_range(self, b: int) -> bool {
        self.point.in_range(b) && self.normal.in_range(b)
    }

    pub fn new(point: Vec3, normal: Vec3) -> (r: Self)
        requires
            point.wf(),
            normal.wf(),
        ensures
            r == (Plane { point, normal }),
    {
        Plane { point, normal }
    }

    /// Returns which side of the plane `point` is on: `Above` exactly when
    /// `dot(normal, point - self.point)` exceeds the tolerance, `Below`
    /// exactly when it falls under its negation, `Coplanar` otherwise.
    #[verifier::rlimit(50)]
    pub fn side(&self, point: Vec3) -> (r: Side)
        requires
            self.in_range(SIDE_LIMIT as int),
            point.in_range(SIDE_LIMIT as int),
        ensures
            r == side_spec(*self, point),
            (r == Side::Above) <==> side_num(*self, point) * EPS_DEN > side_den(*self, point),
            (r == Side::Below) <==> side_num(*self, point) * EPS_DEN < -side_den(*self, point),
            (r == Side::Coplanar) <==> (-side_den(*self, point) <= side_num(*self, point)
                * EPS_DEN <= side_den(*self, point)),
    {
        proof {
            // Ground products, folded once so every bound below is linear.
            assert(0x100000000int * 0x100000000int == 0x10000000000000000
                && 0x30000000000000000int * 0x100000000int == 0x3000000000000000000000000
                && 0x10000000000000000int * 0x100000000int == 0x1000000000000000000000000
                && 0x6000000000000000000000000int * 0x800000int
                == 0x3000000000000000000000000000000) by (nonlinear_arith);
        }
        let nv: i128 = dot3(&self.normal, &point, Ghost((0x100000000int, 0x100000000int)));
        let np: i128 = dot3(&self.normal, &self.point, Ghost((0x100000000int, 0x100000000int)));
        let s: i128 = muli(nv, self.point.d as i128, Ghost((0x30000000000000000int, 0x100000000int)))
            - muli(np, point.d as i128, Ghost((0x30000000000000000int, 0x100000000int)));
        let den: i128 = muli(
            muli(self.normal.d as i128, point.d as i128, Ghost((0x100000000int, 0x100000000int))),
            self.point.d as i128,
            Ghost((0x10000000000000000int, 0x100000000int)),
        );
        let lhs: i128 = muli(s, EPS_DEN as i128, Ghost((0x6000000000000000000000000int, 0x800000int)));
        if lhs < -den {
            Side::Below
        } else if lhs > den {
            Side::Above
        } else {
            Side::Coplanar
        }
    }

    /// The intersection point of a line segment with the plane, or `None`
    /// when the segment is parallel to it or crosses its carrier line
    /// outside the segment's span.
    ///
    /// The returned point lies exactly on the plane: its `side_num`
    /// vanishes.
    pub fn intersect_segment(&self, segment: &crate::Segment) -> (r: Option<Vec3>)
        requires
            self.in_range(SEGMENT_LIMIT as int),
            segment[0].in_range(SEGMENT_LIMIT as int),
            segment[1].in_range(SEGMENT_LIMIT as int),
        ensures
            r.is_some() <==> seg_hit(*self, segment[0], segment[1]),
            r matches Some(v) ==> {
                let (x, y, z, d) = seg_point(*self, segment[0], segment[1]);
                v.x == x && v.y == y && v.z == z && v.d == d
            },
            r matches Some(v) ==> v.wf() && v.in_range(POINT_LIMIT as int) && side_num(
                *self,
                v,
            ) == 0,
    {
        let a0 = segment[0];
        let a1 = segment[1];
        let n0: i128 = dot3(&self.normal, &a0, Ghost((0x800int, 0x800int)));
        let n1: i128 = dot3(&self.normal, &a1, Ghost((0x800int, 0x800int)));
        let dd: i128 = dot3(&self.normal, &self.point, Ghost((0x800int, 0x800int)));
        // The segment is parallel to the plane exactly when w is zero.
        let w: i128 = muli(n1, a0.d as i128, Ghost((0xC00000int, 0x800int))) - muli(
            n0,
            a1.d as i128,
            Ghost((0xC00000int, 0x800int)),
        );
        if w == 0 {
            return None;
        }
        // The crossing parameter is t = v * a1.d / (point.d * w).
        let v: i128 = muli(dd, a0.d as i128, Ghost((0xC00000int, 0x800int))) - muli(
            n0,
            self.point.d as i128,
            Ghost((0xC00000int, 0x800int)),
        );
        let tn: i128 = muli(v, a1.d as i128, Ghost((0xC00000000int, 0x800int)));
        let td: i128 = muli(self.point.d as i128, w, Ghost((0x800int, 0xC00000000int)));
        let inside: bool = if td > 0 {
            0 <= tn && tn <= td
        } else {
            td <= tn && tn <= 0
        };
        if !inside {
            return None;
        }
        let px: i128 = seg_coord(a0.x, a1.x, a0.d, a1.d, v, td);
        let py: i128 = seg_coord(a0.y, a1.y, a0.d, a1.d, v, td);
        let pz: i128 = seg_coord(a0.z, a1.z, a0.d, a1.d, v, td);
        let pd: i128 = muli(a0.d as i128, td, Ghost((0x800int, 0x600000000000int)));
        proof {
            assert(td != 0) by (nonlinear_arith)
                requires
                    td == self.point.d * w,
                    w != 0,
                    1 <= self.point.d,
            ;
            assert(pd != 0) by (nonlinear_arith)
                requires
                    pd == a0.d * td,
                    td != 0,
                    1 <= a0.d,
            ;
        }
        let out: Vec3 = if pd > 0 {
            Vec3 { x: px as i64, y: py as i64, z: pz as i64, d: pd as i64 }
        } else {
            Vec3 { x: (-px) as i64, y: (-py) as i64, z: (-pz) as i64, d: (-pd) as i64 }
        };
        proof {
            lemma_seg_point_on_plane(*self, a0, a1);
        }
        Some(out)
    }

    /// The intersection point of a ray with the plane, or `None` when the
    /// ray is within tolerance of parallel or the hit lies behind the
    /// origin.
    ///
    /// The returned point lies exactly on the plane: its `side_num`
    /// vanishes.
    pub fn intersect_ray(&self, ray: &crate::Ray) -> (r: Option<Vec3>)
        requires
            self.in_range(RAY_LIMIT as int),
            ray.0.in_range(RAY_LIMIT as int),
            ray.1.in_range(RAY_LIMIT as int),
        ensures
            r.is_some() <==> ray_hit(*self, ray.0, ray.1),
            r matches Some(v) ==> {
                let (x, y, z, d) = ray_point(*self, ray.0, ray.1);
                v.x == x && v.y == y && v.z == z && v.d == d
            },
            r matches Some(v) ==> v.wf() && v.in_range(POINT_LIMIT as int) && side_num(
                *self,
                v,
            ) == 0,
    {
        let o = ray.0;
        let dir = ray.1;
        let nd: i128 = dot3(&self.normal, &dir, Ghost((0x4000int, 0x4000int)));
        let nd_abs: i128 = if nd < 0 {
            -nd
        } else {
            nd
        };
        let dn_dd: i128 = muli(self.normal.d as i128, dir.d as i128, Ghost((0x4000int, 0x4000int)));
        if muli(nd_abs, EPS_DEN as i128, Ghost((0x30000000int, 0x800000int))) <= dn_dd {
            return None;
        }
        let no: i128 = dot3(&self.normal, &o, Ghost((0x4000int, 0x4000int)));
        let np: i128 = dot3(&self.normal, &self.point, Ghost((0x4000int, 0x4000int)));
        let v: i128 = muli(np, o.d as i128, Ghost((0x30000000int, 0x4000int))) - muli(
            no,
            self.point.d as i128,
            Ghost((0x30000000int, 0x4000int)),
        );
        let tl: i128 = muli(
            muli(v, dir.d as i128, Ghost((0x180000000000int, 0x4000int))),
            EPS_DEN as i128,
            Ghost((0x600000000000000int, 0x800000int)),
        );
        let q: i128 = muli(
            muli(self.point.d as i128, o.d as i128, Ghost((0x4000int, 0x4000int))),
            nd,
            Ghost((0x10000000int, 0x30000000int)),
        );
        let behind: bool = if nd > 0 {
            tl < q
        } else {
            tl > q
        };
        if behind {
            return None;
        }
        let px: i128 = ray_coord(o.x, o.d, self.point.d, nd, v, dir.x);
        let py: i128 = ray_coord(o.y, o.d, self.point.d, nd, v, dir.y);
        let pz: i128 = ray_coord(o.z, o.d, self.point.d, nd, v, dir.z);
        let pd: i128 = muli(
            o.d as i128,
            muli(self.point.d as i128, nd, Ghost((0x4000int, 0x30000000int))),
            Ghost((0x4000int, 0xC0000000000int)),
        );
        proof {
            assert(pd != 0 && (pd > 0 <==> o.d * (self.point.d * nd) > 0)) by (nonlinear_arith)
                requires
                    pd == o.d * (self.point.d * nd),
                    nd != 0,
                    1 <= o.d,
                    1 <= self.point.d,
            ;
        }
        let out: Vec3 = if pd > 0 {
            Vec3 { x: px as i64, y: py as i64, z: pz as i64, d: pd as i64 }
        } else {
            Vec3 { x: (-px) as i64, y: (-py) as i64, z: (-pz) as i64, d: (-pd) as i64 }
        };
        proof {
            lemma_ray_point_on_plane(*self, o, dir);
        }
        Some(out)
    }
}

/// One coordinate of the segment crossing point, before sign normalisation:
/// `a0c * td + v * (a1c * d0 - a0c * d1)`.
fn seg_coord(a0c: i64, a1c: i64, d0: i64, d1: i64, v: i128, td: i128) -> (r: i128)
    requires
        -0x800 <= a0c <= 0x800,
        -0x800 <= a1c <= 0x800,
        1 <= d0 <= 0x800,
        1 <= d1 <= 0x800,
        -0xC00000000 <= v <= 0xC00000000,
        -0x600000000000 <= td <= 0x600000000000,
    ensures
        r == a0c * td + v * (a1c * d0 - a0c * d1),
        -0x900000000000000 <= r <= 0x900000000000000,
{
    let t1: i128 = muli(a0c as i128, td, Ghost((0x800int, 0x600000000000int)));
    let diff: i128 = muli(a1c as i128, d0 as i128, Ghost((0x800int, 0x800int))) - muli(
        a0c as i128,
        d1 as i128,
        Ghost((0x800int, 0x800int)),
    );
    let t2: i128 = muli(v, diff, Ghost((0xC00000000int, 0x800000int)));
    t1 + t2
}

/// One coordinate of the ray hit point, before sign normalisation:
/// `oc * (dp * nd) + v * dirc`.
fn ray_coord(oc: i64, od: i64, dp: i64, nd: i128, v: i128, dirc: i64) -> (r: i128)
    requires
        -0x4000 <= oc <= 0x4000,
        1 <= od <= 0x4000,
        1 <= dp <= 0x4000,
        -0x30000000 <= nd <= 0x30000000,
        -0x180000000000 <= v <= 0x180000000000,
        -0x4000 <= dirc <= 0x4000,
    ensures
        r == oc * (dp * nd) + v * dirc,
        -0x900000000000000 <= r <= 0x900000000000000,
{
    let t1: i128 = muli(
        oc as i128,
        muli(dp as i128, nd, Ghost((0x4000int, 0x30000000int))),
        Ghost((0x4000int, 0xC0000000000int)),
    );
    let t2: i128 = muli(v, dirc as i128, Ghost((0x180000000000int, 0x4000int)));
    t1 + t2
}

#[verifier::rlimit(30)]
/// The crossing point of a non-parallel segment lies exactly on the plane:
/// the numerator of `dot(normal, point - plane.point)` vanishes, whichever
/// sign normalisation applies.
proof fn lemma_seg_point_on_plane(p: Plane, a: Vec3, b: Vec3)
    ensures
        ({
            let (x, y, z, d) = seg_point(p, a, b);
            (p.normal.x * x + p.normal.y * y + p.normal.z * z) * p.point.d - plane_d_num(p) * d
                == 0
        }),
{
    let na = dot_num(p.normal, a);
    let nb = dot_num(p.normal, b);
    let dd = plane_d_num(p);
    let dp = p.point.d as int;
    let w = seg_w(p, a, b);
    let v = seg_v(p, a);
    let pw = p.point.d * w;
    let x = a.x * pw + v * (b.x * a.d - a.x * b.d);
    let y = a.y * pw + v * (b.y * a.d - a.y * b.d);
    let z = a.z * pw + v * (b.z * a.d - a.z * b.d);
    let d = a.d * pw;
    // Dotting one coordinate of the crossing point with the normal
    // distributes into the two halves of the interpolation.
    lemma_dot_coord(p.normal.x as int, a.x as int, b.x as int, a.d as int, b.d as int, pw, v);
    lemma_dot_coord(p.normal.y as int, a.y as int, b.y as int, a.d as int, b.d as int, pw, v);
    lemma_dot_coord(p.normal.z as int, a.z as int, b.z as int, a.d as int, b.d as int, pw, v);
    // Summing the three coordinates gives the dot products themselves.
    lemma_factor3(pw, p.normal.x * a.x, p.normal.y * a.y, p.normal.z * a.z);
    lemma_sum_cross(
        v,
        p.normal.x * b.x,
        p.normal.y * b.y,
        p.normal.z * b.z,
        p.normal.x * a.x,
        p.normal.y * a.y,
        p.normal.z * a.z,
        a.d as int,
        b.d as int,
    );
    let dot = p.normal.x * x + p.normal.y * y + p.normal.z * z;
    assert(dot == pw * na + v * w);
    // The crossing parameter was chosen to land on the plane.
    lemma_cut_on(w, dd, a.d as int, dp, na, v);
    assert(dot * dp - dd * d == 0);
    if d <= 0 {
        lemma_neg_dot(p.normal.x as int, p.normal.y as int, p.normal.z as int, x, y, z, dp, dd, d);
    }
}

#[verifier::rlimit(30)]
/// The hit point of a ray lies exactly on the plane, whichever sign
/// normalisation applies.
proof fn lemma_ray_point_on_plane(p: Plane, o: Vec3, dir: Vec3)
    ensures
        ({
            let (x, y, z, d) = ray_point(p, o, dir);
            (p.normal.x * x + p.normal.y * y + p.normal.z * z) * p.point.d - plane_d_num(p) * d
                == 0
        }),
{
    let no = dot_num(p.normal, o);
    let nd = dot_num(p.normal, dir);
    let dd = plane_d_num(p);
    let dp = p.point.d as int;
    let v = seg_v(p, o);
    let pnd = p.point.d * nd;
    let x = o.x * pnd + v * dir.x;
    let y = o.y * pnd + v * dir.y;
    let z = o.z * pnd + v * dir.z;
    let d = o.d * pnd;
    // Dotting one coordinate of the hit point with the normal distributes
    // into the two halves of the interpolation.
    lemma_dir_coord(p.normal.x as int, o.x as int, dir.x as int, pnd, v);
    lemma_dir_coord(p.normal.y as int, o.y as int, dir.y as int, pnd, v);
    lemma_dir_coord(p.normal.z as int, o.z as int, dir.z as int, pnd, v);
    // Summing the three coordinates gives the dot products themselves.
    lemma_factor3(pnd, p.normal.x * o.x, p.normal.y * o.y, p.normal.z * o.z);
    lemma_factor3(v, p.normal.x * dir.x, p.normal.y * dir.y, p.normal.z * dir.z);
    let dot = p.normal.x * x + p.normal.y * y + p.normal.z * z;
    assert(dot == pnd * no + v * nd);
    // The hit parameter was chosen to land on the plane.
    lemma_cut_on(nd, dd, o.d as int, dp, no, v);
    assert(dot * dp - dd * d == 0);
    if d <= 0 {
        lemma_neg_dot(p.normal.x as int, p.normal.y as int, p.normal.z as int, x, y, z, dp, dd, d);
    }
}

/// Swapping a segment's endpoints changes only the parametrisation of the
/// crossing, not the crossing: both orders hit the plane together, and when
/// they do, the points they yield are the same.
pub proof fn lemma_segment_swap(p: Plane, a: Vec3, b: Vec3)
    requires
        p.wf(),
        a.wf(),
        b.wf(),
    ensures
        seg_hit(p, a, b) <==> seg_hit(p, b, a),
        seg_hit(p, a, b) ==> ({
            let (x1, y1, z1, d1) = seg_point(p, a, b);
            let (x2, y2, z2, d2) = seg_point(p, b, a);
            &&& rat_eq(x1, d1, x2, d2)
            &&& rat_eq(y1, d1, y2, d2)
            &&& rat_eq(z1, d1, z2, d2)
        }),
{
    let na = dot_num(p.normal, a);
    let nb = dot_num(p.normal, b);
    let dd = plane_d_num(p);
    let dp = p.point.d as int;
    let da = a.d as int;
    let db = b.d as int;
    let sa = na * dp - dd * da;
    let sb = nb * dp - dd * db;
    let w = seg_w(p, a, b);
    let v1 = seg_v(p, a);
    let v2 = seg_v(p, b);
    assert(seg_w(p, b, a) == -w);
    // The crossing parameters complement each other: swapping turns t into
    // 1 - t over a negated scale.
    assert(v2 * da == v1 * db - dp * w) by (nonlinear_arith)
        requires
            v1 == dd * da - na * dp,
            v2 == dd * db - nb * dp,
            w == nb * da - na * db,
    ;
    assert(dp * (-w) == -(dp * w)) by (nonlinear_arith);
    if w != 0 {
        assert(dp * w != 0) by (nonlinear_arith)
            requires
                w != 0,
                dp >= 1,
        ;
    }
    if seg_hit(p, a, b) {
        // Both unnormalised points are the same homogeneous point: each
        // coordinate collapses to the symmetric two-corner form.
        lemma_interp_collapse(a.x as int, b.x as int, da, db, dp, na, nb, dd, v1, w, sa, sb);
        lemma_interp_collapse(a.y as int, b.y as int, da, db, dp, na, nb, dd, v1, w, sa, sb);
        lemma_interp_collapse(a.z as int, b.z as int, da, db, dp, na, nb, dd, v1, w, sa, sb);
        lemma_interp_collapse(b.x as int, a.x as int, db, da, dp, nb, na, dd, v2, -w, sb, sa);
        lemma_interp_collapse(b.y as int, a.y as int, db, da, dp, nb, na, dd, v2, -w, sb, sa);
        lemma_interp_collapse(b.z as int, a.z as int, db, da, dp, nb, na, dd, v2, -w, sb, sa);
        // The two homogeneous points are proportional.
        assert(da * (dp * w) != 0) by (nonlinear_arith)
            requires
                dp * w != 0,
                da >= 1,
        ;
        assert(db * (dp * -w) != 0) by (nonlinear_arith)
            requires
                dp * w != 0,
                db >= 1,
                dp * (-w) == -(dp * w),
        ;
        let kx = a.x * sb - b.x * sa;
        let ky = a.y * sb - b.y * sa;
        let kz = a.z * sb - b.z * sa;
        assert((da * kx) * (db * (dp * -w)) == (db * -kx) * (da * (dp * w))) by (nonlinear_arith);
        assert((da * ky) * (db * (dp * -w)) == (db * -ky) * (da * (dp * w))) by (nonlinear_arith);
        assert((da * kz) * (db * (dp * -w)) == (db * -kz) * (da * (dp * w))) by (nonlinear_arith);
        assert(db * (b.x * sa - a.x * sb) == db * -kx);
        assert(db * (b.y * sa - a.y * sb) == db * -ky);
        assert(db * (b.z * sa - a.z * sb) == db * -kz);
        lemma_swap_norm(
            a.x * (dp * w) + v1 * (b.x * da - a.x * db),
            a.y * (dp * w) + v1 * (b.y * da - a.y * db),
            a.z * (dp * w) + v1 * (b.z * da - a.z * db),
            da * (dp * w),
            b.x * (dp * -w) + v2 * (a.x * db - b.x * da),
            b.y * (dp * -w) + v2 * (a.y * db - b.y * da),
            b.z * (dp * -w) + v2 * (a.z * db - b.z * da),
            db * (dp * -w),
        );
    }
}

/// Proportional homogeneous points stay equal through the sign
/// normalisation of `seg_point`.
proof fn lemma_swap_norm(
    x1: int,
    y1: int,
    z1: int,
    d1: int,
    x2: int,
    y2: int,
    z2: int,
    d2: int,
)
    requires
        x1 * d2 == x2 * d1,
        y1 * d2 == y2 * d1,
        z1 * d2 == z2 * d1,
    ensures
        ({
            let (u1, v1, w1, e1) = if d1 > 0 {
                (x1, y1, z1, d1)
            } else {
                (-x1, -y1, -z1, -d1)
            };
            let (u2, v2, w2, e2) = if d2 > 0 {
                (x2, y2, z2, d2)
            } else {
                (-x2, -y2, -z2, -d2)
            };
            rat_eq(u1, e1, u2, e2) && rat_eq(v1, e1, v2, e2)
                && rat_eq(w1, e1, w2, e2)
        }),
{
    assert((-x1) * d2 == x2 * (-d1) && x1 * (-d2) == (-x2) * d1 && (-x1) * (-d2) == (-x2) * (-d1))
        by (nonlinear_arith)
        requires
            x1 * d2 == x2 * d1,
    ;
    assert((-y1) * d2 == y2 * (-d1) && y1 * (-d2) == (-y2) * d1 && (-y1) * (-d2) == (-y2) * (-d1))
        by (nonlinear_arith)
        requires
            y1 * d2 == y2 * d1,
    ;
    assert((-z1) * d2 == z2 * (-d1) && z1 * (-d2) == (-z2) * d1 && (-z1) * (-d2) == (-z2) * (-d1))
        by (nonlinear_arith)
        requires
            z1 * d2 == z2 * d1,
    ;
}

impl crate::traits::Intersect<crate::Segment, Option<Vec3>> for Plane {
    open spec fn intersects_req(&self, other: &crate::Segment) -> bool {
        &&& self.in_range(SEGMENT_LIMIT as int)
        &&& other[0].in_range(SEGMENT_LIMIT as int)
        &&& other[1].in_range(SEGMENT_LIMIT as int)
    }

    open spec fn intersects_ens(&self, other: &crate::Segment, r: Option<Vec3>) -> bool {
        &&& r.is_some() <==> seg_hit(*self, other[0], other[1])
        &&& r matches Some(v) ==> {
            let (x, y, z, d) = seg_point(*self, other[0], other[1]);
            v.x == x && v.y == y && v.z == z && v.d == d
        }
    }

    fn intersects(&self, other: &crate::Segment) -> (r: Option<Vec3>) {
        self.intersect_segment(other)
    }
}

impl crate::traits::Intersect<crate::Ray, Option<Vec3>> for Plane {
    open spec fn intersects_req(&self, other: &crate::Ray) -> bool {
        &&& self.in_range(RAY_LIMIT as int)
        &&& other.0.in_range(RAY_LIMIT as int)
        &&& other.1.in_range(RAY_LIMIT as int)
    }

    open spec fn intersects_ens(&self, other: &crate::Ray, r: Option<Vec3>) -> bool {
        &&& r.is_some() <==> ray_hit(*self, other.0, other.1)
        &&& r matches Some(v) ==> {
            let (x, y, z, d) = ray_point(*self, other.0, other.1);
            v.x == x && v.y == y && v.z == z && v.d == d
        }
    }

    fn intersects(&self, other: &crate::Ray) -> (r: Option<Vec3>) {
        self.intersect_ray(other)
    }
}

} // verus!
