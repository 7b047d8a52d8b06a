//! Intersection tests against a triangle.

use vstd::prelude::*;
use crate::plane::{Plane, seg_hit, seg_point};
use crate::rat::{EPS_DEN, muli, mul64};
use crate::triangle::Triangle;
use crate::vector::{Vec3, dot3};

verus! {

/// Largest coordinate magnitude accepted by `Triangle::intersect_ray`.
pub const TRI_RAY_LIMIT: i64 = 0x80;

/// Magnitude bound on the fields of the point `Triangle::intersect_ray`
/// returns.
pub const TRI_RAY_POINT_LIMIT: i64 = 0x90000000000000;

/// Determinant of the parametric system: the dot product of the first edge
/// with the cross product of the ray direction and the second edge. Zero
/// within tolerance means the ray is parallel to the triangle's plane. Its
/// denominator is `tri_ray_den`.
pub open spec fn tri_ray_a(tri: Triangle, dir: Vec3) -> int {
    let p0 = tri.points[0];
    let p1 = tri.points[1];
    let p2 = tri.points[2];
    let e1x = p1.x * p0.d - p0.x * p1.d;
    let e1y = p1.y * p0.d - p0.y * p1.d;
    let e1z = p1.z * p0.d - p0.z * p1.d;
    let e2x = p2.x * p0.d - p0.x * p2.d;
    let e2y = p2.y * p0.d - p0.y * p2.d;
    let e2z = p2.z * p0.d - p0.z * p2.d;
    let hx = dir.y * e2z - dir.z * e2y;
    let hy = dir.z * e2x - dir.x * e2z;
    let hz = dir.x * e2y - dir.y * e2x;
    e1x * hx + e1y * hy + e1z * hz
}

/// Positive denominator matching `tri_ray_a`.
pub open spec fn tri_ray_den(tri: Triangle, dir: Vec3) -> int {
    (tri.points[0].d * tri.points[1].d) * (dir.d * (tri.points[0].d * tri.points[2].d))
}

/// Numerator of the first barycentric coordinate before division by the
/// determinant: the dot product of the origin offset with the same cross
/// product as `tri_ray_a`.
pub open spec fn tri_ray_b(tri: Triangle, o: Vec3, dir: Vec3) -> int {
    let p0 = tri.points[0];
    let p2 = tri.points[2];
    let sx = o.x * p0.d - p0.x * o.d;
    let sy = o.y * p0.d - p0.y * o.d;
    let sz = o.z * p0.d - p0.z * o.d;
    let e2x = p2.x * p0.d - p0.x * p2.d;
    let e2y = p2.y * p0.d - p0.y * p2.d;
    let e2z = p2.z * p0.d - p0.z * p2.d;
    let hx = dir.y * e2z - dir.z * e2y;
    let hy = dir.z * e2x - dir.x * e2z;
    let hz = dir.x * e2y - dir.y * e2x;
    sx * hx + sy * hy + sz * hz
}

/// Numerator of the second barycentric coordinate before division: the dot
/// product of the ray direction with the cross product of the origin offset
/// and the first edge.
pub open spec fn tri_ray_c(tri: Triangle, o: Vec3, dir: Vec3) -> int {
    let p0 = tri.points[0];
    let p1 = tri.points[1];
    let sx = o.x * p0.d - p0.x * o.d;
    let sy = o.y * p0.d - p0.y * o.d;
    let sz = o.z * p0.d - p0.z * o.d;
    let e1x = p1.x * p0.d - p0.x * p1.d;
    let e1y = p1.y * p0.d - p0.y * p1.d;
    let e1z = p1.z * p0.d - p0.z * p1.d;
    let qx = sy * e1z - sz * e1y;
    let qy = sz * e1x - sx * e1z;
    let qz = sx * e1y - sy * e1x;
    dir.x * qx + dir.y * qy + dir.z * qz
}

/// Numerator of the hit distance before division: the dot product of the
/// second edge with the same cross product as `tri_ray_c`.
pub open spec fn tri_ray_e(tri: Triangle, o: Vec3, dir: Vec3) -> int {
    let p0 = tri.points[0];
    let p1 = tri.points[1];
    let p2 = tri.points[2];
    let sx = o.x * p0.d - p0.x * o.d;
    let sy = o.y * p0.d - p0.y * o.d;
    let sz = o.z * p0.d - p0.z * o.d;
    let e1x = p1.x * p0.d - p0.x * p1.d;
    let e1y = p1.y * p0.d - p0.y * p1.d;
    let e1z = p1.z * p0.d - p0.z * p1.d;
    let e2x = p2.x * p0.d - p0.x * p2.d;
    let e2y = p2.y * p0.d - p0.y * p2.d;
    let e2z = p2.z * p0.d - p0.z * p2.d;
    let qx = sy * e1z - sz * e1y;
    let qy = sz * e1x - sx * e1z;
    let qz = sx * e1y - sy * e1x;
    e2x * qx + e2y * qy + e2z * qz
}

/// The ray hits the triangle: the determinant is at least the tolerance in
/// magnitude, both barycentric coordinates and their sum lie in the unit
/// range, and the hit distance exceeds the tolerance. The shared positive
/// scale of the barycentric tests is `tri_ray_a * o.d`, whose sign carries
/// the determinant's.
pub open spec fn tri_ray_hit(tri: Triangle, o: Vec3, dir: Vec3) -> bool {
    let a = tri_ray_a(tri, dir);
    let un = tri_ray_b(tri, o, dir) * tri.points[1].d;
    let vn = tri_ray_c(tri, o, dir) * tri.points[2].d;
    let ud = a * o.d;
    let tn = tri_ray_e(tri, o, dir) * dir.d;
    let td = ud * tri.points[0].d;
    &&& (if a >= 0 {
        a
    } else {
        -a
    }) * EPS_DEN >= tri_ray_den(tri, dir)
    &&& if ud > 0 {
        0 <= un && un <= ud && 0 <= vn && un + vn <= ud
    } else {
        un <= 0 && ud <= un && vn <= 0 && ud <= un + vn
    }
    &&& if td > 0 {
        tn * EPS_DEN > td
    } else {
        tn * EPS_DEN < td
    }
}

/// Field-level value of the ray hit point `o + t * dir`, sign-normalised so
/// the denominator is positive.
pub open spec fn tri_ray_point(tri: Triangle, o: Vec3, dir: Vec3) -> (int, int, int, int) {
    let ad0 = tri_ray_a(tri, dir) * tri.points[0].d;
    let e = tri_ray_e(tri, o, dir);
    let x = o.x * ad0 + e * dir.x;
    let y = o.y * ad0 + e * dir.y;
    let z = o.z * ad0 + e * dir.z;
    let d = o.d * ad0;
    if d > 0 {
        (x, y, z, d)
    } else {
        (-x, -y, -z, -d)
    }
}

impl Triangle {
    /// The intersection point of a ray with this triangle, through the
    /// two-edge parametric test, or `None` when the ray is within tolerance
    /// of parallel to the triangle's plane, misses it, or would hit behind
    /// the origin.
    #[verifier::rlimit(100)]
    pub fn intersect_ray(&self, ray: &crate::Ray) -> (r: Option<Vec3>)
        requires
            self.points[0].in_range(TRI_RAY_LIMIT as int),
            self.points[1].in_range(TRI_RAY_LIMIT as int),
            self.points[2].in_range(TRI_RAY_LIMIT as int),
            ray.0.in_range(TRI_RAY_LIMIT as int),
            ray.1.in_range(TRI_RAY_LIMIT as int),
        ensures
            r.is_some() <==> tri_ray_hit(*self, ray.0, ray.1),
            r matches Some(v) ==> {
                let (x, y, z, d) = tri_ray_point(*self, ray.0, ray.1);
                v.x == x && v.y == y && v.z == z && v.d == d
            },
            r matches Some(v) ==> v.wf() && v.in_range(TRI_RAY_POINT_LIMIT as int),
    {
        proof {
            // Ground products, folded once so every bound below is linear.
            assert(0x80int * 0x80int == 0x4000 && 0x80int * 0x8000int == 0x400000 && 0x8000int
                * 0x8000int == 0x40000000 && 0x8000int * 0x800000int == 0x4000000000 && 0x80int
                * 0x80000000int == 0x4000000000 && 0x8000int * 0x80000000int == 0x400000000000
                && 0xC000000000int * 0x800000int == 0x6000000000000000 && 0xC000000000int
                * 0x80int == 0x600000000000 && 0xC00000000000int * 0x80int == 0x60000000000000
                && 0x60000000000000int * 0x800000int == 0x30000000000000000000 && 0x80int
                * 0x4000int == 0x200000 && 0x4000int * 0x200000int == 0x800000000 && 0x80int
                * 0x600000000000int == 0x30000000000000) by (nonlinear_arith);
        }
        let o = ray.0;
        let dir = ray.1;
        let p0 = self.points[0];
        let p1 = self.points[1];
        let p2 = self.points[2];
        let g8: Ghost<(int, int)> = Ghost((0x80int, 0x80int));
        let gh: Ghost<(int, int)> = Ghost((0x80int, 0x8000int));
        let ge: Ghost<(int, int)> = Ghost((0x8000int, 0x800000int));
        let e1x: i128 = muli(p1.x as i128, p0.d as i128, g8) - muli(p0.x as i128, p1.d as i128, g8);
        let e1y: i128 = muli(p1.y as i128, p0.d as i128, g8) - muli(p0.y as i128, p1.d as i128, g8);
        let e1z: i128 = muli(p1.z as i128, p0.d as i128, g8) - muli(p0.z as i128, p1.d as i128, g8);
        let e2x: i128 = muli(p2.x as i128, p0.d as i128, g8) - muli(p0.x as i128, p2.d as i128, g8);
        let e2y: i128 = muli(p2.y as i128, p0.d as i128, g8) - muli(p0.y as i128, p2.d as i128, g8);
        let e2z: i128 = muli(p2.z as i128, p0.d as i128, g8) - muli(p0.z as i128, p2.d as i128, g8);
        let hx: i128 = muli(dir.y as i128, e2z, gh) - muli(dir.z as i128, e2y, gh);
        let hy: i128 = muli(dir.z as i128, e2x, gh) - muli(dir.x as i128, e2z, gh);
        let hz: i128 = muli(dir.x as i128, e2y, gh) - muli(dir.y as i128, e2x, gh);
        let a: i128 = muli(e1x, hx, ge) + muli(e1y, hy, ge) + muli(e1z, hz, ge);
        let abs_a: i128 = if a < 0 {
            -a
        } else {
            a
        };
        let den: i128 = muli(
            muli(p0.d as i128, p1.d as i128, g8),
            muli(dir.d as i128, muli(p0.d as i128, p2.d as i128, g8), Ghost((0x80int, 0x4000int))),
            Ghost((0x4000int, 0x200000int)),
        );
        if muli(abs_a, EPS_DEN as i128, Ghost((0xC000000000int, 0x800000int))) < den {
            // The ray is parallel to the triangle's plane.
            return None;
        }
        let sx: i128 = muli(o.x as i128, p0.d as i128, g8) - muli(p0.x as i128, o.d as i128, g8);
        let sy: i128 = muli(o.y as i128, p0.d as i128, g8) - muli(p0.y as i128, o.d as i128, g8);
        let sz: i128 = muli(o.z as i128, p0.d as i128, g8) - muli(p0.z as i128, o.d as i128, g8);
        let b: i128 = muli(sx, hx, ge) + muli(sy, hy, ge) + muli(sz, hz, ge);
        let gq: Ghost<(int, int)> = Ghost((0x8000int, 0x8000int));
        let qx: i128 = muli(sy, e1z, gq) - muli(sz, e1y, gq);
        let qy: i128 = muli(sz, e1x, gq) - muli(sx, e1z, gq);
        let qz: i128 = muli(sx, e1y, gq) - muli(sy, e1x, gq);
        let gc: Ghost<(int, int)> = Ghost((0x80int, 0x80000000int));
        let c: i128 = muli(dir.x as i128, qx, gc) + muli(dir.y as i128, qy, gc) + muli(
            dir.z as i128,
            qz,
            gc,
        );
        let gn: Ghost<(int, int)> = Ghost((0xC000000000int, 0x80int));
        let un: i128 = muli(b, p1.d as i128, gn);
        let vn: i128 = muli(c, p2.d as i128, gn);
        let ud: i128 = muli(a, o.d as i128, gn);
        proof {
            assert((ud > 0 <==> a > 0) && (ud < 0 <==> a < 0)) by (nonlinear_arith)
                requires
                    ud == a * o.d,
                    1 <= o.d,
            ;
        }
        let inside: bool = if ud > 0 {
            0 <= un && un <= ud && 0 <= vn && un + vn <= ud
        } else {
            un <= 0 && ud <= un && vn <= 0 && ud <= un + vn
        };
        if !inside {
            return None;
        }
        let ge2: Ghost<(int, int)> = Ghost((0x8000int, 0x80000000int));
        let e: i128 = muli(e2x, qx, ge2) + muli(e2y, qy, ge2) + muli(e2z, qz, ge2);
        let tn: i128 = muli(e, dir.d as i128, Ghost((0xC00000000000int, 0x80int)));
        let td: i128 = muli(ud, p0.d as i128, Ghost((0x600000000000int, 0x80int)));
        proof {
            assert((td > 0 <==> ud > 0) && (td < 0 <==> ud < 0)) by (nonlinear_arith)
                requires
                    td == ud * p0.d,
                    1 <= p0.d,
            ;
        }
        let tl: i128 = muli(tn, EPS_DEN as i128, Ghost((0x60000000000000int, 0x800000int)));
        let behind: bool = if td > 0 {
            tl <= td
        } else {
            tl >= td
        };
        if behind {
            return None;
        }
        let ad0: i128 = muli(a, p0.d as i128, gn);
        let gt1: Ghost<(int, int)> = Ghost((0x80int, 0x600000000000int));
        let px: i128 = muli(o.x as i128, ad0, gt1) + muli(e, dir.x as i128, Ghost((0xC00000000000int, 0x80int)));
        let py: i128 = muli(o.y as i128, ad0, gt1) + muli(e, dir.y as i128, Ghost((0xC00000000000int, 0x80int)));
        let pz: i128 = muli(o.z as i128, ad0, gt1) + muli(e, dir.z as i128, Ghost((0xC00000000000int, 0x80int)));
        let pd: i128 = muli(o.d as i128, ad0, gt1);
        proof {
            assert(den >= 1) by (nonlinear_arith)
                requires
                    den == (p0.d * p1.d) * (dir.d * (p0.d * p2.d)),
                    1 <= p0.d,
                    1 <= p1.d,
                    1 <= p2.d,
                    1 <= dir.d,
            ;
            assert(a != 0) by (nonlinear_arith)
                requires
                    0 <= abs_a,
                    abs_a * EPS_DEN >= den,
                    den >= 1,
                    EPS_DEN >= 1,
                    a < 0 ==> abs_a == -a,
                    a >= 0 ==> abs_a == a,
            ;
            assert(pd != 0 && (pd > 0 <==> a > 0)) by (nonlinear_arith)
                requires
                    pd == o.d * (a * p0.d),
                    a != 0,
                    1 <= o.d,
                    1 <= p0.d,
            ;
        }
        let out: Vec3 = if pd > 0 {
            Vec3 { x: px as i64, y: py as i64, z: pz as i64, d: pd as i64 }
        } else {
            Vec3 { x: (-px) as i64, y: (-py) as i64, z: (-pz) as i64, d: (-pd) as i64 }
        };
        Some(out)
    }
}

/// Largest coordinate magnitude accepted by `Triangle::intersect_segment`
/// and `Triangle::intersect_triangle` for points and segment ends.
pub const TRI_SEG_LIMIT: i64 = 0x20;

/// Largest magnitude accepted there for the stored normal's fields: what
/// `from_points_uvs` derives from points within `TRI_SEG_LIMIT`.
pub const TRI_SEG_NORMAL_LIMIT: i64 = 0x800000;

/// Magnitude bound on the fields of the point `Triangle::intersect_segment`
/// returns.
pub const TRI_SEG_POINT_LIMIT: i64 = 0x900000000000;

/// Numerator of the dot product of the offset from `a` to the point
/// `(px, py, pz) / pd` with the edge-normal vector `cross(b - a, n)`. The
/// matching positive denominator is `edge_den`.
pub open spec fn edge_num(a: Vec3, b: Vec3, n: Vec3, px: int, py: int, pz: int, pd: int) -> int {
    let ex = b.x * a.d - a.x * b.d;
    let ey = b.y * a.d - a.y * b.d;
    let ez = b.z * a.d - a.z * b.d;
    let cx = ey * n.z - ez * n.y;
    let cy = ez * n.x - ex * n.z;
    let cz = ex * n.y - ey * n.x;
    let fx = px * a.d - a.x * pd;
    let fy = py * a.d - a.y * pd;
    let fz = pz * a.d - a.z * pd;
    fx * cx + fy * cy + fz * cz
}

/// Positive denominator matching `edge_num`.
pub open spec fn edge_den(a: Vec3, b: Vec3, n: Vec3, pd: int) -> int {
    (pd * a.d) * ((a.d * b.d) * n.d)
}

/// The point lies strictly on the interior side of the edge from `a` to
/// `b`, by more than the tolerance: the signed measure is under its
/// negation.
///
/// Deliberate tolerance semantics: the tolerance is applied to the signed
/// measure scaled by the rational denominators, not to the signed Euclidean
/// distance (the measure divided by the length of `cross(b - a, n)`). The
/// Euclidean form squares to an exact integer test, but the squared widths
/// would force coordinate limits near ten; this form keeps usable limits.
/// The two predicates give the same answer for every point outside the
/// tolerance band of either; only points within one band and not the other
/// classify differently.
pub open spec fn edge_inside(a: Vec3, b: Vec3, n: Vec3, px: int, py: int, pz: int, pd: int) -> bool {
    edge_num(a, b, n, px, py, pz, pd) * EPS_DEN < -edge_den(a, b, n, pd)
}

/// The supporting plane of a triangle: its first point and its normal.
pub open spec fn carrier(tri: Triangle) -> Plane {
    Plane { point: tri.points[0], normal: tri.normal }
}

/// The segment hits the triangle: it crosses the supporting plane within
/// its span, and the crossing point lies strictly inside all three edges.
pub open spec fn tri_seg_hit(tri: Triangle, s0: Vec3, s1: Vec3) -> bool {
    let (px, py, pz, pd) = seg_point(carrier(tri), s0, s1);
    &&& seg_hit(carrier(tri), s0, s1)
    &&& edge_inside(tri.points[0], tri.points[1], tri.normal, px, py, pz, pd)
    &&& edge_inside(tri.points[1], tri.points[2], tri.normal, px, py, pz, pd)
    &&& edge_inside(tri.points[2], tri.points[0], tri.normal, px, py, pz, pd)
}

/// Whether the point lies strictly inside the edge from `a` to `b`.
pub(crate) fn edge_test(a: &Vec3, b: &Vec3, n: &Vec3, pt: &Vec3) -> (r: bool)
    requires
        a.in_range(TRI_SEG_LIMIT as int),
        b.in_range(TRI_SEG_LIMIT as int),
        n.in_range(TRI_SEG_NORMAL_LIMIT as int),
        pt.in_range(TRI_SEG_POINT_LIMIT as int),
    ensures
        r == edge_inside(*a, *b, *n, pt.x as int, pt.y as int, pt.z as int, pt.d as int),
{
    proof {
        assert(0x20int * 0x20int == 0x400 && 0x800int * 0x800000int == 0x400000000
            && 0x900000000000int * 0x20int == 0x12000000000000 && 0x24000000000000int
            * 0x800000000int == 0x12000000000000000000000 && 0x400int * 0x800000int
            == 0x200000000 && 0x12000000000000int * 0x200000000int == 0x2400000000000000000000
            && 0x36000000000000000000000int * 0x800000int
            == 0x1B000000000000000000000000000) by (nonlinear_arith);
    }
    let g2: Ghost<(int, int)> = Ghost((0x20int, 0x20int));
    let ex: i128 = muli(b.x as i128, a.d as i128, g2) - muli(a.x as i128, b.d as i128, g2);
    let ey: i128 = muli(b.y as i128, a.d as i128, g2) - muli(a.y as i128, b.d as i128, g2);
    let ez: i128 = muli(b.z as i128, a.d as i128, g2) - muli(a.z as i128, b.d as i128, g2);
    let gc: Ghost<(int, int)> = Ghost((0x800int, 0x800000int));
    let cx: i128 = muli(ey, n.z as i128, gc) - muli(ez, n.y as i128, gc);
    let cy: i128 = muli(ez, n.x as i128, gc) - muli(ex, n.z as i128, gc);
    let cz: i128 = muli(ex, n.y as i128, gc) - muli(ey, n.x as i128, gc);
    let gf: Ghost<(int, int)> = Ghost((0x900000000000int, 0x20int));
    let fx: i128 = muli(pt.x as i128, a.d as i128, gf) - muli(a.x as i128, pt.d as i128, Ghost((0x20int, 0x900000000000int)));
    let fy: i128 = muli(pt.y as i128, a.d as i128, gf) - muli(a.y as i128, pt.d as i128, Ghost((0x20int, 0x900000000000int)));
    let fz: i128 = muli(pt.z as i128, a.d as i128, gf) - muli(a.z as i128, pt.d as i128, Ghost((0x20int, 0x900000000000int)));
    let gd: Ghost<(int, int)> = Ghost((0x24000000000000int, 0x800000000int));
    let num: i128 = muli(fx, cx, gd) + muli(fy, cy, gd) + muli(fz, cz, gd);
    let den: i128 = muli(
        muli(pt.d as i128, a.d as i128, gf),
        muli(muli(a.d as i128, b.d as i128, g2), n.d as i128, Ghost((0x400int, 0x800000int))),
        Ghost((0x12000000000000int, 0x200000000int)),
    );
    let lhs: i128 = muli(num, EPS_DEN as i128, Ghost((0x36000000000000000000000int, 0x800000int)));
    lhs < -den
}

impl Triangle {
    /// The intersection point of a line segment with this triangle: the
    /// segment is cut against the triangle's supporting plane, and the
    /// crossing point counts only if it lies strictly inside all three
    /// edges, under `edge_inside`'s denominator-scaled tolerance. Returns
    /// `None` otherwise.
    #[verifier::rlimit(100)]
    pub fn intersect_segment(&self, segment: &crate::Segment) -> (r: Option<Vec3>)
        requires
            self.points[0].in_range(TRI_SEG_LIMIT as int),
            self.points[1].in_range(TRI_SEG_LIMIT as int),
            self.points[2].in_range(TRI_SEG_LIMIT as int),
            self.normal.in_range(TRI_SEG_NORMAL_LIMIT as int),
            segment[0].in_range(TRI_SEG_LIMIT as int),
            segment[1].in_range(TRI_SEG_LIMIT as int),
        ensures
            r.is_some() <==> tri_seg_hit(*self, segment[0], segment[1]),
            r matches Some(v) ==> {
                let (x, y, z, d) = seg_point(carrier(*self), segment[0], segment[1]);
                v.x == x && v.y == y && v.z == z && v.d == d
            },
            r matches Some(v) ==> v.wf() && v.in_range(TRI_SEG_POINT_LIMIT as int),
    {
        proof {
            assert(0x20int * 0x800000int == 0x10000000 && 0x30000000int * 0x20int == 0x600000000
                && 0x20int * 0xC00000000int == 0x18000000000 && 0xC00000000int * 0x20int
                == 0x18000000000 && 0x20int * 0x18000000000int == 0x300000000000
                && 0xC00000000int * 0x800int == 0x600000000000) by (nonlinear_arith);
        }
        let s0 = segment[0];
        let s1 = segment[1];
        let n = self.normal;
        let p0 = self.points[0];
        let gn: Ghost<(int, int)> = Ghost((0x800000int, 0x20int));
        let n0: i128 = dot3(&n, &s0, Ghost((0x800000int, 0x20int)));
        let n1: i128 = dot3(&n, &s1, Ghost((0x800000int, 0x20int)));
        let dd: i128 = dot3(&n, &p0, Ghost((0x800000int, 0x20int)));
        let gw: Ghost<(int, int)> = Ghost((0x30000000int, 0x20int));
        let w: i128 = muli(n1, s0.d as i128, gw) - muli(n0, s1.d as i128, gw);
        if w == 0 {
            return None;
        }
        let v: i128 = muli(dd, s0.d as i128, gw) - muli(n0, p0.d as i128, gw);
        let tn: i128 = muli(v, s1.d as i128, Ghost((0xC00000000int, 0x20int)));
        let td: i128 = muli(p0.d as i128, w, Ghost((0x20int, 0xC00000000int)));
        let inside_span: bool = if td > 0 {
            0 <= tn && tn <= td
        } else {
            td <= tn && tn <= 0
        };
        if !inside_span {
            return None;
        }
        let gp: Ghost<(int, int)> = Ghost((0x20int, 0x18000000000int));
        let gv: Ghost<(int, int)> = Ghost((0xC00000000int, 0x800int));
        let px: i128 = muli(s0.x as i128, td, gp) + muli(
            v,
            muli(s1.x as i128, s0.d as i128, Ghost((0x20int, 0x20int))) - muli(
                s0.x as i128,
                s1.d as i128,
                Ghost((0x20int, 0x20int)),
            ),
            gv,
        );
        let py: i128 = muli(s0.y as i128, td, gp) + muli(
            v,
            muli(s1.y as i128, s0.d as i128, Ghost((0x20int, 0x20int))) - muli(
                s0.y as i128,
                s1.d as i128,
                Ghost((0x20int, 0x20int)),
            ),
            gv,
        );
        let pz: i128 = muli(s0.z as i128, td, gp) + muli(
            v,
            muli(s1.z as i128, s0.d as i128, Ghost((0x20int, 0x20int))) - muli(
                s0.z as i128,
                s1.d as i128,
                Ghost((0x20int, 0x20int)),
            ),
            gv,
        );
        let pd: i128 = muli(s0.d as i128, td, gp);
        proof {
            assert(td != 0) by (nonlinear_arith)
                requires
                    td == p0.d * w,
                    w != 0,
                    1 <= p0.d,
            ;
            assert(pd != 0) by (nonlinear_arith)
                requires
                    pd == s0.d * td,
                    td != 0,
                    1 <= s0.d,
            ;
        }
        let pt: Vec3 = if pd > 0 {
            Vec3 { x: px as i64, y: py as i64, z: pz as i64, d: pd as i64 }
        } else {
            Vec3 { x: (-px) as i64, y: (-py) as i64, z: (-pz) as i64, d: (-pd) as i64 }
        };
        if edge_test(&self.points[0], &self.points[1], &n, &pt) && edge_test(
            &self.points[1],
            &self.points[2],
            &n,
            &pt,
        ) && edge_test(&self.points[2], &self.points[0], &n, &pt) {
            Some(pt)
        } else {
            None
        }
    }

    /// Whether two triangles intersect: a quick rejection when their
    /// bounding boxes do not overlap on every axis, then each edge of the
    /// other triangle is tested as a segment against this one, with
    /// `edge_inside`'s denominator-scaled tolerance.
    pub fn intersect_triangle(&self, other: &Triangle) -> (r: bool)
        requires
            self.points[0].in_range(TRI_SEG_LIMIT as int),
            self.points[1].in_range(TRI_SEG_LIMIT as int),
            self.points[2].in_range(TRI_SEG_LIMIT as int),
            self.normal.in_range(TRI_SEG_NORMAL_LIMIT as int),
            other.points[0].in_range(TRI_SEG_LIMIT as int),
            other.points[1].in_range(TRI_SEG_LIMIT as int),
            other.points[2].in_range(TRI_SEG_LIMIT as int),
        ensures
            r == (boxes_overlap(*self, *other) && (tri_seg_hit(*self, other.points[0], other.points[1])
                || tri_seg_hit(*self, other.points[1], other.points[2]) || tri_seg_hit(
                *self,
                other.points[2],
                other.points[0],
            ))),
    {
        if !(axis_le(
            self.points[0].x, self.points[0].d, self.points[1].x, self.points[1].d,
            self.points[2].x, self.points[2].d, other.points[0].x, other.points[0].d,
            other.points[1].x, other.points[1].d, other.points[2].x, other.points[2].d,
        ) && axis_le(
            other.points[0].x, other.points[0].d, other.points[1].x, other.points[1].d,
            other.points[2].x, other.points[2].d, self.points[0].x, self.points[0].d,
            self.points[1].x, self.points[1].d, self.points[2].x, self.points[2].d,
        ) && axis_le(
            self.points[0].y, self.points[0].d, self.points[1].y, self.points[1].d,
            self.points[2].y, self.points[2].d, other.points[0].y, other.points[0].d,
            other.points[1].y, other.points[1].d, other.points[2].y, other.points[2].d,
        ) && axis_le(
            other.points[0].y, other.points[0].d, other.points[1].y, other.points[1].d,
            other.points[2].y, other.points[2].d, self.points[0].y, self.points[0].d,
            self.points[1].y, self.points[1].d, self.points[2].y, self.points[2].d,
        ) && axis_le(
            self.points[0].z, self.points[0].d, self.points[1].z, self.points[1].d,
            self.points[2].z, self.points[2].d, other.points[0].z, other.points[0].d,
            other.points[1].z, other.points[1].d, other.points[2].z, other.points[2].d,
        ) && axis_le(
            other.points[0].z, other.points[0].d, other.points[1].z, other.points[1].d,
            other.points[2].z, other.points[2].d, self.points[0].z, self.points[0].d,
            self.points[1].z, self.points[1].d, self.points[2].z, self.points[2].d,
        )) {
            return false;
        }
        self.intersect_segment(&[other.points[0], other.points[1]]).is_some()
            || self.intersect_segment(&[other.points[1], other.points[2]]).is_some()
            || self.intersect_segment(&[other.points[2], other.points[0]]).is_some()
    }
}

/// The smaller of two rationals with positive denominators.
pub open spec fn rat_min2(p: (int, int), q: (int, int)) -> (int, int) {
    if p.0 * q.1 <= q.0 * p.1 {
        p
    } else {
        q
    }
}

/// The larger of two rationals with positive denominators.
pub open spec fn rat_max2(p: (int, int), q: (int, int)) -> (int, int) {
    if p.0 * q.1 >= q.0 * p.1 {
        p
    } else {
        q
    }
}

/// The least of three axis values is at most the greatest of three others:
/// one half of the bounding-box overlap test on one axis.
pub open spec fn axis_min_le_max(
    a0: (int, int),
    a1: (int, int),
    a2: (int, int),
    b0: (int, int),
    b1: (int, int),
    b2: (int, int),
) -> bool {
    let mn = rat_min2(rat_min2(a0, a1), a2);
    let mx = rat_max2(rat_max2(b0, b1), b2);
    mn.0 * mx.1 <= mx.0 * mn.1
}

/// The bounding boxes of the two triangles overlap on every axis.
pub open spec fn boxes_overlap(a: Triangle, b: Triangle) -> bool {
    let ax0 = (a.points[0].x as int, a.points[0].d as int);
    let ax1 = (a.points[1].x as int, a.points[1].d as int);
    let ax2 = (a.points[2].x as int, a.points[2].d as int);
    let bx0 = (b.points[0].x as int, b.points[0].d as int);
    let bx1 = (b.points[1].x as int, b.points[1].d as int);
    let bx2 = (b.points[2].x as int, b.points[2].d as int);
    let ay0 = (a.points[0].y as int, a.points[0].d as int);
    let ay1 = (a.points[1].y as int, a.points[1].d as int);
    let ay2 = (a.points[2].y as int, a.points[2].d as int);
    let by0 = (b.points[0].y as int, b.points[0].d as int);
    let by1 = (b.points[1].y as int, b.points[1].d as int);
    let by2 = (b.points[2].y as int, b.points[2].d as int);
    let az0 = (a.points[0].z as int, a.points[0].d as int);
    let az1 = (a.points[1].z as int, a.points[1].d as int);
    let az2 = (a.points[2].z as int, a.points[2].d as int);
    let bz0 = (b.points[0].z as int, b.points[0].d as int);
    let bz1 = (b.points[1].z as int, b.points[1].d as int);
    let bz2 = (b.points[2].z as int, b.points[2].d as int);
    &&& axis_min_le_max(ax0, ax1, ax2, bx0, bx1, bx2)
    &&& axis_min_le_max(bx0, bx1, bx2, ax0, ax1, ax2)
    &&& axis_min_le_max(ay0, ay1, ay2, by0, by1, by2)
    &&& axis_min_le_max(by0, by1, by2, ay0, ay1, ay2)
    &&& axis_min_le_max(az0, az1, az2, bz0, bz1, bz2)
    &&& axis_min_le_max(bz0, bz1, bz2, az0, az1, az2)
}

/// Whether the least of the first three axis values is at most the greatest
/// of the other three.
fn axis_le(
    n0: i64, d0: i64, n1: i64, d1: i64, n2: i64, d2: i64,
    m0: i64, e0: i64, m1: i64, e1: i64, m2: i64, e2: i64,
) -> (r: bool)
    requires
        1 <= d0, 1 <= d1, 1 <= d2, 1 <= e0, 1 <= e1, 1 <= e2,
    ensures
        r == axis_min_le_max(
            (n0 as int, d0 as int), (n1 as int, d1 as int), (n2 as int, d2 as int),
            (m0 as int, e0 as int), (m1 as int, e1 as int), (m2 as int, e2 as int),
        ),
{
    let (mn, md) = if mul64(n0, d1) <= mul64(n1, d0) {
        if mul64(n0, d2) <= mul64(n2, d0) { (n0, d0) } else { (n2, d2) }
    } else {
        if mul64(n1, d2) <= mul64(n2, d1) { (n1, d1) } else { (n2, d2) }
    };
    let (xn, xd) = if mul64(m0, e1) >= mul64(m1, e0) {
        if mul64(m0, e2) >= mul64(m2, e0) { (m0, e0) } else { (m2, e2) }
    } else {
        if mul64(m1, e2) >= mul64(m2, e1) { (m1, e1) } else { (m2, e2) }
    };
    mul64(mn, xd) <= mul64(xn, md)
}

} // verus!
