//! Subdividing and plane-slicing a triangle.

use vstd::prelude::*;
use crate::plane::{Plane, side_spec, side_num, side_den, plane_d_num};
use crate::rat::{
    EPS_DEN, muli, mul64, lemma_cross_coord, lemma_cut_cancel, lemma_cut_den_sign, lemma_factor3,
    lemma_pos3, lemma_scaled_sign,
};
use crate::side::Side;
use crate::triangle::Triangle;
use crate::vector::{Vec2, Vec3, dot_num, dot3};

verus! {

/// Largest coordinate magnitude accepted by `Triangle::slice`.
pub const SLICE_LIMIT: i64 = 0x200;

/// Magnitude bound on the fields of every point and texture coordinate that
/// `Triangle::slice` emits.
pub const SLICE_OUT_LIMIT: i64 = 0x300000000000000;

/// Largest coordinate magnitude accepted by `Triangle::subdivide`.
pub const SUBDIVIDE_LIMIT: i64 = 0x40000000;

/// Two sides are strictly opposite: the edge between them crosses the plane.
pub open spec fn opposite(s: Side, t: Side) -> bool {
    ||| (s == Side::Above && t == Side::Below)
    ||| (s == Side::Below && t == Side::Above)
}

/// A vertex of side `s` is routed to the above accumulator: coplanar
/// vertices ride with the triangle's facing.
pub open spec fn routed_above(s: Side, orient: bool) -> bool {
    s == Side::Above || (s == Side::Coplanar && orient)
}

/// A vertex of side `s` is routed to the below accumulator.
pub open spec fn routed_below(s: Side, orient: bool) -> bool {
    s == Side::Below || (s == Side::Coplanar && !orient)
}

/// Field-level value of the point where the edge from `a` to `b` crosses the
/// plane, sign-normalised so the denominator is positive: the interpolation
/// `a + t * (b - a)` at `t = -side_num(a) * b.d / g`, written over the
/// common denominator `g = a.d * side_num(b) - b.d * side_num(a)`.
pub open spec fn cut_point(p: Plane, a: Vec3, b: Vec3) -> (int, int, int, int) {
    let sa = side_num(p, a);
    let sb = side_num(p, b);
    let g = a.d * sb - b.d * sa;
    let x = a.x * sb - b.x * sa;
    let y = a.y * sb - b.y * sa;
    let z = a.z * sb - b.z * sa;
    if g > 0 {
        (x, y, z, g)
    } else {
        (-x, -y, -z, -g)
    }
}

/// Field-level value of the texture coordinate interpolated at the same
/// crossing parameter as `cut_point`.
pub open spec fn cut_uv(p: Plane, a: Vec3, b: Vec3, ua: Vec2, ub: Vec2) -> (int, int, int) {
    let sa = side_num(p, a);
    let sb = side_num(p, b);
    let g = a.d * sb - b.d * sa;
    let x = (a.d * ub.d) * (ua.x * sb) - (b.d * ua.d) * (ub.x * sa);
    let y = (a.d * ub.d) * (ua.y * sb) - (b.d * ua.d) * (ub.y * sa);
    let d = (ua.d * ub.d) * g;
    if d > 0 {
        (x, y, d)
    } else {
        (-x, -y, -d)
    }
}

/// The vertex that the slicer appends to both accumulators where an edge
/// crosses the plane.
pub open spec fn cut_vert(p: Plane, a: Vec3, b: Vec3, ua: Vec2, ub: Vec2) -> (Vec3, Vec2) {
    let (x, y, z, d) = cut_point(p, a, b);
    let (u, v, ud) = cut_uv(p, a, b, ua, ub);
    (
        Vec3 { x: x as i64, y: y as i64, z: z as i64, d: d as i64 },
        Vec2 { x: u as i64, y: v as i64, d: ud as i64 },
    )
}

/// Whether a vertex of side `s` is kept by the accumulator of the given
/// side.
pub open spec fn kept(s: Side, orient: bool, above: bool) -> bool {
    if above {
        routed_above(s, orient)
    } else {
        routed_below(s, orient)
    }
}

/// The ordered vertices that one accumulator collects while the slicer
/// walks the three corners and the edge after each of them.
pub open spec fn slice_verts(tri: Triangle, p: Plane, above: bool) -> Seq<(Vec3, Vec2)> {
    let orient = dot_num(p.normal, tri.normal) > 0;
    let s0 = side_spec(p, tri.points[0]);
    let s1 = side_spec(p, tri.points[1]);
    let s2 = side_spec(p, tri.points[2]);
    let v0: Seq<(Vec3, Vec2)> = Seq::empty();
    let v1 = if kept(s0, orient, above) {
        v0.push((tri.points[0], tri.uvs[0]))
    } else {
        v0
    };
    let v2 = if opposite(s0, s1) {
        v1.push(cut_vert(p, tri.points[0], tri.points[1], tri.uvs[0], tri.uvs[1]))
    } else {
        v1
    };
    let v3 = if kept(s1, orient, above) {
        v2.push((tri.points[1], tri.uvs[1]))
    } else {
        v2
    };
    let v4 = if opposite(s1, s2) {
        v3.push(cut_vert(p, tri.points[1], tri.points[2], tri.uvs[1], tri.uvs[2]))
    } else {
        v3
    };
    let v5 = if kept(s2, orient, above) {
        v4.push((tri.points[2], tri.uvs[2]))
    } else {
        v4
    };
    if opposite(s2, s0) {
        v5.push(cut_vert(p, tri.points[2], tri.points[0], tri.uvs[2], tri.uvs[0]))
    } else {
        v5
    }
}

/// A triangle made of three collected vertices, inheriting the normal.
pub open spec fn mk_tri(v0: (Vec3, Vec2), v1: (Vec3, Vec2), v2: (Vec3, Vec2), normal: Vec3) -> Triangle {
    Triangle { points: [v0.0, v1.0, v2.0], uvs: [v0.1, v1.1, v2.1], normal }
}

/// Fan-triangulation of a collected accumulator: corners `0, 1, 2`, then
/// `0, 2, 3`. A plane cuts a triangle into at most four collected vertices.
pub open spec fn fan_triangles(verts: Seq<(Vec3, Vec2)>, normal: Vec3) -> Seq<Triangle> {
    if verts.len() < 3 {
        Seq::empty()
    } else if verts.len() == 3 {
        seq![mk_tri(verts[0], verts[1], verts[2], normal)]
    } else {
        seq![
            mk_tri(verts[0], verts[1], verts[2], normal),
            mk_tri(verts[0], verts[2], verts[3], normal),
        ]
    }
}

/// Everything `Triangle::slice` appends to the above accumulator.
pub open spec fn slice_above(tri: Triangle, p: Plane) -> Seq<Triangle> {
    let s0 = side_spec(p, tri.points[0]);
    let s1 = side_spec(p, tri.points[1]);
    let s2 = side_spec(p, tri.points[2]);
    if s0 == s1 && s0 == s2 {
        if routed_above(s0, dot_num(p.normal, tri.normal) > 0) {
            seq![tri]
        } else {
            Seq::empty()
        }
    } else {
        fan_triangles(slice_verts(tri, p, true), tri.normal)
    }
}

/// Everything `Triangle::slice` appends to the below accumulator.
pub open spec fn slice_below(tri: Triangle, p: Plane) -> Seq<Triangle> {
    let s0 = side_spec(p, tri.points[0]);
    let s1 = side_spec(p, tri.points[1]);
    let s2 = side_spec(p, tri.points[2]);
    if s0 == s1 && s0 == s2 {
        if routed_below(s0, dot_num(p.normal, tri.normal) > 0) {
            seq![tri]
        } else {
            Seq::empty()
        }
    } else {
        fan_triangles(slice_verts(tri, p, false), tri.normal)
    }
}

/// No point of the triangle lies strictly below the plane.
pub open spec fn keeps_above(t: Triangle, p: Plane) -> bool {
    forall|i: int| 0 <= i < 3 ==> side_spec(p, #[trigger] t.points[i]) != Side::Below
}

/// No point of the triangle lies strictly above the plane.
pub open spec fn keeps_below(t: Triangle, p: Plane) -> bool {
    forall|i: int| 0 <= i < 3 ==> side_spec(p, #[trigger] t.points[i]) != Side::Above
}

/// Points and coordinates collected by one accumulator are well-formed,
/// bounded, and lie on the accumulator's side of the plane or on it.
pub open spec fn vert_ok(p: Plane, e: (Vec3, Vec2), above: bool) -> bool {
    &&& e.0.wf()
    &&& e.1.wf()
    &&& e.0.in_range(SLICE_OUT_LIMIT as int)
    &&& e.1.in_range(SLICE_OUT_LIMIT as int)
    &&& if above {
        side_spec(p, e.0) != Side::Below
    } else {
        side_spec(p, e.0) != Side::Above
    }
}

/// The exact numerator of a point's plane offset, `side_num`.
pub(crate) fn side_num_exec(p: &Plane, v: &Vec3) -> (r: i128)
    requires
        p.in_range(SLICE_LIMIT as int),
        v.in_range(SLICE_LIMIT as int),
    ensures
        r == side_num(*p, *v),
        -0x30000000 <= r <= 0x30000000,
{
    proof {
        assert(0x200int * 0x200int == 0x40000 && 0xC0000int * 0x200int == 0x18000000)
            by (nonlinear_arith);
    }
    let nv: i128 = dot3(&p.normal, v, Ghost((0x200int, 0x200int)));
    let np: i128 = dot3(&p.normal, &p.point, Ghost((0x200int, 0x200int)));
    muli(nv, p.point.d as i128, Ghost((0xC0000int, 0x200int))) - muli(
        np,
        v.d as i128,
        Ghost((0xC0000int, 0x200int)),
    )
}

/// The cut point lies exactly on the plane: the numerator of
/// `dot(normal, point - plane.point)` vanishes, whichever sign
/// normalisation applies.
proof fn lemma_cut_point_on_plane(p: Plane, a: Vec3, b: Vec3)
    ensures
        ({
            let (x, y, z, d) = cut_point(p, a, b);
            (p.normal.x * x + p.normal.y * y + p.normal.z * z) * p.point.d - plane_d_num(p) * d
                == 0
        }),
{
    let na = dot_num(p.normal, a);
    let nb = dot_num(p.normal, b);
    let dd = plane_d_num(p);
    let dp = p.point.d as int;
    let sa = side_num(p, a);
    let sb = side_num(p, b);
    let x = a.x * sb - b.x * sa;
    let y = a.y * sb - b.y * sa;
    let z = a.z * sb - b.z * sa;
    let d = a.d * sb - b.d * sa;
    // Dotting one coordinate of the cut point with the normal splits into
    // the two corner dot products.
    lemma_cross_coord(p.normal.x as int, a.x as int, b.x as int, sa, sb);
    lemma_cross_coord(p.normal.y as int, a.y as int, b.y as int, sa, sb);
    lemma_cross_coord(p.normal.z as int, a.z as int, b.z as int, sa, sb);
    lemma_factor3(sb, p.normal.x * a.x, p.normal.y * a.y, p.normal.z * a.z);
    lemma_factor3(sa, p.normal.x * b.x, p.normal.y * b.y, p.normal.z * b.z);
    let dot = p.normal.x * x + p.normal.y * y + p.normal.z * z;
    assert(dot == sb * na - sa * nb);
    // The two corner offsets cancel exactly.
    lemma_cut_cancel(na, nb, dd, dp, a.d as int, b.d as int, sa, sb);
    assert(dot * dp - dd * d == 0);
    if d <= 0 {
        crate::rat::lemma_neg_dot(
            p.normal.x as int,
            p.normal.y as int,
            p.normal.z as int,
            x,
            y,
            z,
            dp,
            dd,
            d,
        );
    }
}

/// Computes the vertex where the edge from `a` to `b` crosses the plane.
pub(crate) fn cut(p: &Plane, a: &Vec3, b: &Vec3, ua: &Vec2, ub: &Vec2) -> (r: (Vec3, Vec2))
    requires
        p.in_range(SLICE_LIMIT as int),
        a.in_range(SLICE_LIMIT as int),
        b.in_range(SLICE_LIMIT as int),
        ua.in_range(SLICE_LIMIT as int),
        ub.in_range(SLICE_LIMIT as int),
        opposite(side_spec(*p, *a), side_spec(*p, *b)),
    ensures
        r == cut_vert(*p, *a, *b, *ua, *ub),
        r.0.wf(),
        r.1.wf(),
        r.0.in_range(SLICE_OUT_LIMIT as int),
        r.1.in_range(SLICE_OUT_LIMIT as int),
        side_num(*p, r.0) == 0,
        side_spec(*p, r.0) == Side::Coplanar,
{
    proof {
        assert(0x200int * 0x200int == 0x40000 && 0x200int * 0x30000000int == 0x6000000000
            && 0x40000int * 0x6000000000int == 0x180000000000000 && 0x40000int * 0xC000000000int
            == 0x300000000000000) by (nonlinear_arith);
    }
    let sa: i128 = side_num_exec(p, a);
    let sb: i128 = side_num_exec(p, b);
    proof {
        lemma_pos3(p.normal.d as int, a.d as int, p.point.d as int);
        lemma_pos3(p.normal.d as int, b.d as int, p.point.d as int);
        lemma_scaled_sign(sa as int, EPS_DEN as int, side_den(*p, *a));
        lemma_scaled_sign(sb as int, EPS_DEN as int, side_den(*p, *b));
        lemma_cut_den_sign(a.d as int, b.d as int, sa as int, sb as int);
    }
    let gb: Ghost<(int, int)> = Ghost((0x200int, 0x30000000int));
    let g: i128 = muli(a.d as i128, sb, gb) - muli(b.d as i128, sa, gb);
    let x: i128 = muli(a.x as i128, sb, gb) - muli(b.x as i128, sa, gb);
    let y: i128 = muli(a.y as i128, sb, gb) - muli(b.y as i128, sa, gb);
    let z: i128 = muli(a.z as i128, sb, gb) - muli(b.z as i128, sa, gb);
    let du: i128 = muli(a.d as i128, ub.d as i128, Ghost((0x200int, 0x200int)));
    let dv: i128 = muli(b.d as i128, ua.d as i128, Ghost((0x200int, 0x200int)));
    let ub2: Ghost<(int, int)> = Ghost((0x40000int, 0x6000000000int));
    let un: i128 = muli(du, muli(ua.x as i128, sb, gb), ub2) - muli(
        dv,
        muli(ub.x as i128, sa, gb),
        ub2,
    );
    let vn: i128 = muli(du, muli(ua.y as i128, sb, gb), ub2) - muli(
        dv,
        muli(ub.y as i128, sa, gb),
        ub2,
    );
    let ud: i128 = muli(
        muli(ua.d as i128, ub.d as i128, Ghost((0x200int, 0x200int))),
        g,
        Ghost((0x40000int, 0xC000000000int)),
    );
    proof {
        assert((g > 0 ==> ud > 0) && (g < 0 ==> ud < 0)) by (nonlinear_arith)
            requires
                ud == (ua.d * ub.d) * g,
                1 <= ua.d,
                1 <= ub.d,
        ;
    }
    let point: Vec3 = if g > 0 {
        Vec3 { x: x as i64, y: y as i64, z: z as i64, d: g as i64 }
    } else {
        Vec3 { x: (-x) as i64, y: (-y) as i64, z: (-z) as i64, d: (-g) as i64 }
    };
    let uv: Vec2 = if ud > 0 {
        Vec2 { x: un as i64, y: vn as i64, d: ud as i64 }
    } else {
        Vec2 { x: (-un) as i64, y: (-vn) as i64, d: (-ud) as i64 }
    };
    proof {
        lemma_cut_point_on_plane(*p, *a, *b);
        assert(side_num(*p, point) == 0);
        assert(side_num(*p, point) * EPS_DEN == 0) by (nonlinear_arith)
            requires
                side_num(*p, point) == 0,
        ;
        lemma_pos3(p.normal.d as int, point.d as int, p.point.d as int);
    }
    (point, uv)
}

/// Field-level value of the midpoint of two points, over the denominator
/// `2 * a.d * b.d`.
pub open spec fn mid_point(a: Vec3, b: Vec3) -> Vec3 {
    Vec3 {
        x: (a.x * b.d + b.x * a.d) as i64,
        y: (a.y * b.d + b.y * a.d) as i64,
        z: (a.z * b.d + b.z * a.d) as i64,
        d: (2 * (a.d * b.d)) as i64,
    }
}

/// Field-level value of the midpoint of two texture coordinates.
pub open spec fn mid_uv(a: Vec2, b: Vec2) -> Vec2 {
    Vec2 {
        x: (a.x * b.d + b.x * a.d) as i64,
        y: (a.y * b.d + b.y * a.d) as i64,
        d: (2 * (a.d * b.d)) as i64,
    }
}


/// The four triangles `Triangle::subdivide` produces: one at each corner
/// and one joining the three edge midpoints, all inheriting the normal.
pub open spec fn subdivided4(t: Triangle) -> Seq<Triangle> {
    seq![
        Triangle {
            points: [
                t.points[0],
                mid_point(t.points[0], t.points[1]),
                mid_point(t.points[2], t.points[0]),
            ],
            uvs: [t.uvs[0], mid_uv(t.uvs[0], t.uvs[1]), mid_uv(t.uvs[2], t.uvs[0])],
            normal: t.normal,
        },
        Triangle {
            points: [
                mid_point(t.points[0], t.points[1]),
                t.points[1],
                mid_point(t.points[1], t.points[2]),
            ],
            uvs: [mid_uv(t.uvs[0], t.uvs[1]), t.uvs[1], mid_uv(t.uvs[1], t.uvs[2])],
            normal: t.normal,
        },
        Triangle {
            points: [
                mid_point(t.points[2], t.points[0]),
                mid_point(t.points[1], t.points[2]),
                t.points[2],
            ],
            uvs: [mid_uv(t.uvs[2], t.uvs[0]), mid_uv(t.uvs[1], t.uvs[2]), t.uvs[2]],
            normal: t.normal,
        },
        Triangle {
            points: [
                mid_point(t.points[0], t.points[1]),
                mid_point(t.points[1], t.points[2]),
                mid_point(t.points[2], t.points[0]),
            ],
            uvs: [
                mid_uv(t.uvs[0], t.uvs[1]),
                mid_uv(t.uvs[1], t.uvs[2]),
                mid_uv(t.uvs[2], t.uvs[0]),
            ],
            normal: t.normal,
        },
    ]
}

/// Computes the midpoint of two points exactly.
fn midpoint(a: &Vec3, b: &Vec3) -> (r: Vec3)
    requires
        a.in_range(SUBDIVIDE_LIMIT as int),
        b.in_range(SUBDIVIDE_LIMIT as int),
    ensures
        r == mid_point(*a, *b),
        r.wf(),
        r.in_range(0x2000000000000000),
{
    proof {
        assert(0x40000000int * 0x40000000int == 0x1000000000000000) by (nonlinear_arith);
        assert(a.d * b.d >= 1) by (nonlinear_arith)
            requires
                1 <= a.d,
                1 <= b.d,
        ;
    }
    let g: Ghost<(int, int)> = Ghost((0x40000000int, 0x40000000int));
    let x: i128 = muli(a.x as i128, b.d as i128, g) + muli(b.x as i128, a.d as i128, g);
    let y: i128 = muli(a.y as i128, b.d as i128, g) + muli(b.y as i128, a.d as i128, g);
    let z: i128 = muli(a.z as i128, b.d as i128, g) + muli(b.z as i128, a.d as i128, g);
    let d: i128 = 2 * muli(a.d as i128, b.d as i128, g);
    Vec3 { x: x as i64, y: y as i64, z: z as i64, d: d as i64 }
}

/// Computes the midpoint of two texture coordinates exactly.
fn midpoint_uv(a: &Vec2, b: &Vec2) -> (r: Vec2)
    requires
        a.in_range(SUBDIVIDE_LIMIT as int),
        b.in_range(SUBDIVIDE_LIMIT as int),
    ensures
        r == mid_uv(*a, *b),
        r.wf(),
        r.in_range(0x2000000000000000),
{
    proof {
        assert(0x40000000int * 0x40000000int == 0x1000000000000000) by (nonlinear_arith);
        assert(a.d * b.d >= 1) by (nonlinear_arith)
            requires
                1 <= a.d,
                1 <= b.d,
        ;
    }
    let g: Ghost<(int, int)> = Ghost((0x40000000int, 0x40000000int));
    let x: i128 = muli(a.x as i128, b.d as i128, g) + muli(b.x as i128, a.d as i128, g);
    let y: i128 = muli(a.y as i128, b.d as i128, g) + muli(b.y as i128, a.d as i128, g);
    let d: i128 = 2 * muli(a.d as i128, b.d as i128, g);
    Vec2 { x: x as i64, y: y as i64, d: d as i64 }
}

impl Triangle {
    /// Subdivides this triangle into four triangles: one at each corner and
    /// one joining the three edge midpoints, all inheriting the normal.
    pub fn subdivide(&self) -> (r: [Triangle; 4])
        requires
            self.coords_in_range(SUBDIVIDE_LIMIT as int),
            self.normal.wf(),
        ensures
            r[0] == (Triangle {
                points: [
                    self.points[0],
                    mid_point(self.points[0], self.points[1]),
                    mid_point(self.points[2], self.points[0]),
                ],
                uvs: [self.uvs[0], mid_uv(self.uvs[0], self.uvs[1]), mid_uv(self.uvs[2], self.uvs[0])],
                normal: self.normal,
            }),
            r[1] == (Triangle {
                points: [
                    mid_point(self.points[0], self.points[1]),
                    self.points[1],
                    mid_point(self.points[1], self.points[2]),
                ],
                uvs: [mid_uv(self.uvs[0], self.uvs[1]), self.uvs[1], mid_uv(self.uvs[1], self.uvs[2])],
                normal: self.normal,
            }),
            r[2] == (Triangle {
                points: [
                    mid_point(self.points[2], self.points[0]),
                    mid_point(self.points[1], self.points[2]),
                    self.points[2],
                ],
                uvs: [mid_uv(self.uvs[2], self.uvs[0]), mid_uv(self.uvs[1], self.uvs[2]), self.uvs[2]],
                normal: self.normal,
            }),
            r[3] == (Triangle {
                points: [
                    mid_point(self.points[0], self.points[1]),
                    mid_point(self.points[1], self.points[2]),
                    mid_point(self.points[2], self.points[0]),
                ],
                uvs: [
                    mid_uv(self.uvs[0], self.uvs[1]),
                    mid_uv(self.uvs[1], self.uvs[2]),
                    mid_uv(self.uvs[2], self.uvs[0]),
                ],
                normal: self.normal,
            }),
            forall|i: int| 0 <= i < 4 ==> (#[trigger] r[i]).wf(),
    {
        let p01 = midpoint(&self.points[0], &self.points[1]);
        let p12 = midpoint(&self.points[1], &self.points[2]);
        let p20 = midpoint(&self.points[2], &self.points[0]);
        let uv01 = midpoint_uv(&self.uvs[0], &self.uvs[1]);
        let uv12 = midpoint_uv(&self.uvs[1], &self.uvs[2]);
        let uv20 = midpoint_uv(&self.uvs[2], &self.uvs[0]);
        [
            Triangle {
                points: [self.points[0], p01, p20],
                uvs: [self.uvs[0], uv01, uv20],
                normal: self.normal,
            },
            Triangle {
                points: [p01, self.points[1], p12],
                uvs: [uv01, self.uvs[1], uv12],
                normal: self.normal,
            },
            Triangle {
                points: [p20, p12, self.points[2]],
                uvs: [uv20, uv12, self.uvs[2]],
                normal: self.normal,
            },
            Triangle { points: [p01, p12, p20], uvs: [uv01, uv12, uv20], normal: self.normal },
        ]
    }

    /// Slices this triangle by the plane into fragments appended to the two
    /// accumulators: at most one triangle on the unaffected side and up to
    /// two on the cut side. Fragments inherit the normal. A triangle whose
    /// corners all classify the same way — a triangle lying wholly in the
    /// plane included — goes whole to one side: its own side, or for a
    /// coplanar triangle the side its normal faces, so degenerate geometry
    /// is never split or duplicated.
    ///
    /// A side whose accumulator collects fewer than three vertices emits
    /// nothing; when a coplanar corner is routed away from a side that the
    /// cut leaves thin, a sliver can vanish entirely, as the walk described
    /// by the design does.
    ///
    /// Every point of every fragment appended to `above` classifies `Above`
    /// or `Coplanar`, and likewise for `below`.
    #[verifier::rlimit(100)]
    pub fn slice(&self, plane: &Plane, above: &mut Vec<Triangle>, below: &mut Vec<Triangle>)
        requires
            self.coords_in_range(SLICE_LIMIT as int),
            self.normal.wf(),
            plane.in_range(SLICE_LIMIT as int),
        ensures
            final(above)@ == old(above)@ + slice_above(*self, *plane),
            final(below)@ == old(below)@ + slice_below(*self, *plane),
            forall|k: int|
                old(above)@.len() <= k < final(above)@.len() ==> {
                    &&& (#[trigger] final(above)@[k]).wf()
                    &&& final(above)@[k].coords_in_range(SLICE_OUT_LIMIT as int)
                    &&& final(above)@[k].normal == self.normal
                    &&& keeps_above(final(above)@[k], *plane)
                },
            forall|k: int|
                old(below)@.len() <= k < final(below)@.len() ==> {
                    &&& (#[trigger] final(below)@[k]).wf()
                    &&& final(below)@[k].coords_in_range(SLICE_OUT_LIMIT as int)
                    &&& final(below)@[k].normal == self.normal
                    &&& keeps_below(final(below)@[k], *plane)
                },
    {
        let ghost pl = *plane;
        let s0 = plane.side(self.points[0]);
        let s1 = plane.side(self.points[1]);
        let s2 = plane.side(self.points[2]);
        proof {
            assert(0x200int * 0x8000000000000000int == 0x1000000000000000000) by (nonlinear_arith);
        }
        let ornum: i128 = dot3(&plane.normal, &self.normal, Ghost((0x200int, 0x8000000000000000int)));
        let orient: bool = ornum > 0;
        if s0 == s1 && s0 == s2 {
            if matches!(s0, Side::Above) {
                above.push(*self);
            } else if matches!(s0, Side::Below) {
                below.push(*self);
            } else if orient {
                above.push(*self);
            } else {
                below.push(*self);
            }
            proof {
                assert(above@ =~= old(above)@ + slice_above(*self, pl));
                assert(below@ =~= old(below)@ + slice_below(*self, pl));
            }
            return;
        }
        let mut va: Vec<(Vec3, Vec2)> = Vec::new();
        let mut vb: Vec<(Vec3, Vec2)> = Vec::new();
        // Corner 0, then the edge to corner 1.
        if matches!(s0, Side::Above) {
            va.push((self.points[0], self.uvs[0]));
        } else if matches!(s0, Side::Below) {
            vb.push((self.points[0], self.uvs[0]));
        } else if orient {
            va.push((self.points[0], self.uvs[0]));
        } else {
            vb.push((self.points[0], self.uvs[0]));
        }
        if matches!(s0, Side::Above) && matches!(s1, Side::Below) || matches!(s0, Side::Below)
            && matches!(s1, Side::Above) {
            let cv = cut(plane, &self.points[0], &self.points[1], &self.uvs[0], &self.uvs[1]);
            va.push(cv);
            vb.push(cv);
        }
        proof {
            assert(forall|k: int| 0 <= k < va@.len() ==> vert_ok(pl, #[trigger] va@[k], true));
            assert(forall|k: int| 0 <= k < vb@.len() ==> vert_ok(pl, #[trigger] vb@[k], false));
        }
        // Corner 1, then the edge to corner 2.
        if matches!(s1, Side::Above) {
            va.push((self.points[1], self.uvs[1]));
        } else if matches!(s1, Side::Below) {
            vb.push((self.points[1], self.uvs[1]));
        } else if orient {
            va.push((self.points[1], self.uvs[1]));
        } else {
            vb.push((self.points[1], self.uvs[1]));
        }
        if matches!(s1, Side::Above) && matches!(s2, Side::Below) || matches!(s1, Side::Below)
            && matches!(s2, Side::Above) {
            let cv = cut(plane, &self.points[1], &self.points[2], &self.uvs[1], &self.uvs[2]);
            va.push(cv);
            vb.push(cv);
        }
        proof {
            assert(forall|k: int| 0 <= k < va@.len() ==> vert_ok(pl, #[trigger] va@[k], true));
            assert(forall|k: int| 0 <= k < vb@.len() ==> vert_ok(pl, #[trigger] vb@[k], false));
        }
        // Corner 2, then the edge back to corner 0.
        if matches!(s2, Side::Above) {
            va.push((self.points[2], self.uvs[2]));
        } else if matches!(s2, Side::Below) {
            vb.push((self.points[2], self.uvs[2]));
        } else if orient {
            va.push((self.points[2], self.uvs[2]));
        } else {
            vb.push((self.points[2], self.uvs[2]));
        }
        if matches!(s2, Side::Above) && matches!(s0, Side::Below) || matches!(s2, Side::Below)
            && matches!(s0, Side::Above) {
            let cv = cut(plane, &self.points[2], &self.points[0], &self.uvs[2], &self.uvs[0]);
            va.push(cv);
            vb.push(cv);
        }
        proof {
            assert(forall|k: int| 0 <= k < va@.len() ==> vert_ok(pl, #[trigger] va@[k], true));
            assert(forall|k: int| 0 <= k < vb@.len() ==> vert_ok(pl, #[trigger] vb@[k], false));
            assert(va@ =~= slice_verts(*self, pl, true));
            assert(vb@ =~= slice_verts(*self, pl, false));
        }
        if va.len() >= 3 {
            let t = Triangle {
                points: [va[0].0, va[1].0, va[2].0],
                uvs: [va[0].1, va[1].1, va[2].1],
                normal: self.normal,
            };
            above.push(t);
            if va.len() >= 4 {
                let t2 = Triangle {
                    points: [va[0].0, va[2].0, va[3].0],
                    uvs: [va[0].1, va[2].1, va[3].1],
                    normal: self.normal,
                };
                above.push(t2);
            }
        }
        if vb.len() >= 3 {
            let t = Triangle {
                points: [vb[0].0, vb[1].0, vb[2].0],
                uvs: [vb[0].1, vb[1].1, vb[2].1],
                normal: self.normal,
            };
            below.push(t);
            if vb.len() >= 4 {
                let t2 = Triangle {
                    points: [vb[0].0, vb[2].0, vb[3].0],
                    uvs: [vb[0].1, vb[2].1, vb[3].1],
                    normal: self.normal,
                };
                below.push(t2);
            }
        }
        proof {
            assert(above@ =~= old(above)@ + slice_above(*self, pl));
            assert(below@ =~= old(below)@ + slice_below(*self, pl));
        }
    }
}

} // verus!
