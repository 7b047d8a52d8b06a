//! A convex polygon of vertices, and its intersection with a ray.

pub mod modifiers;

use vstd::prelude::*;
use crate::plane::{Plane, ray_hit, ray_point};
use crate::rat::{EPS_DEN, muli};
use crate::triangle::Triangle;
use crate::triangle::intersect::{edge_inside, edge_test, TRI_SEG_POINT_LIMIT};
use crate::vector::{Vec3, dot3};
use crate::vertex::Vertex;

verus! {

/// Largest coordinate magnitude accepted by `Polygon::intersect_ray` for
/// points and the ray.
pub const POLY_RAY_LIMIT: i64 = 0x20;

/// Largest magnitude accepted there for the first vertex's normal.
pub const POLY_RAY_NORMAL_LIMIT: i64 = 0x800000;

/// Largest coordinate magnitude accepted by `Polygon::triangulate` for the
/// vertex normals it averages.
pub const TRIANGULATE_LIMIT: i64 = 0x100000;

/// An ordered loop of vertices; edges run between consecutive vertices with
/// wraparound.
#[derive(Clone, Debug)]
pub struct Polygon {
    pub vertices: Vec<Vertex>,
}

/// The supporting plane of a polygon: its first vertex's point and normal.
pub open spec fn poly_carrier(s: Seq<Vertex>) -> Plane {
    Plane { point: s[0].point, normal: s[0].normal }
}

/// The ray hits the polygon: it hits the supporting plane, and the hit
/// point lies strictly inside every wraparound edge, all measured against
/// the first vertex's normal.
pub open spec fn poly_ray_hit(s: Seq<Vertex>, o: Vec3, dir: Vec3) -> bool {
    let (px, py, pz, pd) = ray_point(poly_carrier(s), o, dir);
    &&& s.len() > 0
    &&& ray_hit(poly_carrier(s), o, dir)
    &&& forall|i: int|
        0 <= i < s.len() ==> edge_inside(
            (#[trigger] s[i]).point,
            s[if i + 1 == s.len() {
                0
            } else {
                i + 1
            }].point,
            s[0].normal,
            px,
            py,
            pz,
            pd,
        )
}

/// The per-component average of three normals, over the denominator
/// `3 * da * db * dc`.
pub open spec fn avg3(a: Vec3, b: Vec3, c: Vec3) -> Vec3 {
    Vec3 {
        x: ((a.x * b.d) * c.d + (b.x * a.d) * c.d + (c.x * a.d) * b.d) as i64,
        y: ((a.y * b.d) * c.d + (b.y * a.d) * c.d + (c.y * a.d) * b.d) as i64,
        z: ((a.z * b.d) * c.d + (b.z * a.d) * c.d + (c.z * a.d) * b.d) as i64,
        d: (3 * ((a.d * b.d) * c.d)) as i64,
    }
}

/// The fan triangle of a polygon at index `k`: vertex 0 with vertices
/// `k + 1` and `k + 2`, carrying the average of the three normals.
pub open spec fn fan_at(s: Seq<Vertex>, k: int) -> Triangle {
    Triangle {
        points: [s[0].point, s[k + 1].point, s[k + 2].point],
        uvs: [s[0].uv, s[k + 1].uv, s[k + 2].uv],
        normal: avg3(s[0].normal, s[k + 1].normal, s[k + 2].normal),
    }
}

impl Polygon {
    pub open spec fn wf(self) -> bool {
        forall|i: int| 0 <= i < self.vertices@.len() ==> (#[trigger] self.vertices@[i]).wf()
    }

    pub fn new(vertices: Vec<Vertex>) -> (r: Self)
        ensures
            r.vertices == vertices,
    {
        Self { vertices }
    }

    /// Appends a vertex to the loop.
    pub fn add(&mut self, vertex: Vertex)
        ensures
            final(self).vertices@ == old(self).vertices@.push(vertex),
    {
        self.vertices.push(vertex);
    }

    /// Removes and returns the vertex at `index`.
    pub fn remove(&mut self, index: usize) -> (r: Vertex)
        requires
            index < old(self).vertices@.len(),
        ensures
            r == old(self).vertices@[index as int],
            final(self).vertices@ == old(self).vertices@.remove(index as int),
    {
        self.vertices.remove(index)
    }

    pub fn len(&self) -> (r: usize)
        ensures
            r == self.vertices@.len(),
    {
        self.vertices.len()
    }

    pub fn is_empty(&self) -> (r: bool)
        ensures
            r == (self.vertices@.len() == 0),
    {
        self.vertices.is_empty()
    }

    /// The nth vertex; the index must be below the length.
    pub fn vertex(&self, index: usize) -> (r: Vertex)
        requires
            index < self.vertices@.len(),
        ensures
            r == self.vertices@[index as int],
    {
        self.vertices[index]
    }

    /// The same loop walked backwards, with every normal negated.
    pub fn flip(&self) -> (r: Polygon)
        requires
            self.wf(),
        ensures
            r.vertices@.len() == self.vertices@.len(),
            forall|i: int|
                0 <= i < self.vertices@.len() ==> (#[trigger] r.vertices@[i]) == (Vertex {
                    point: self.vertices@[self.vertices@.len() - 1 - i].point,
                    uv: self.vertices@[self.vertices@.len() - 1 - i].uv,
                    normal: Vec3 {
                        x: (-self.vertices@[self.vertices@.len() - 1 - i].normal.x) as i64,
                        y: (-self.vertices@[self.vertices@.len() - 1 - i].normal.y) as i64,
                        z: (-self.vertices@[self.vertices@.len() - 1 - i].normal.z) as i64,
                        d: self.vertices@[self.vertices@.len() - 1 - i].normal.d,
                    },
                }),
    {
        let ghost s = self.vertices@;
        let mut out: Vec<Vertex> = Vec::new();
        let n = self.vertices.len();
        let mut i: usize = 0;
        while i < n
            invariant
                i <= n,
                n == s.len(),
                self.vertices@ == s,
                self.wf(),
                out@.len() == i,
                forall|k: int|
                    0 <= k < i ==> (#[trigger] out@[k]) == (Vertex {
                        point: s[s.len() - 1 - k].point,
                        uv: s[s.len() - 1 - k].uv,
                        normal: Vec3 {
                            x: (-s[s.len() - 1 - k].normal.x) as i64,
                            y: (-s[s.len() - 1 - k].normal.y) as i64,
                            z: (-s[s.len() - 1 - k].normal.z) as i64,
                            d: s[s.len() - 1 - k].normal.d,
                        },
                    }),
            decreases n - i,
        {
            let v = self.vertices[n - 1 - i];
            let flipped = Vertex {
                point: v.point,
                uv: v.uv,
                normal: Vec3 { x: -v.normal.x, y: -v.normal.y, z: -v.normal.z, d: v.normal.d },
            };
            out.push(flipped);
            i += 1;
        }
        Polygon { vertices: out }
    }

    /// Fan-triangulates the polygon from vertex 0, averaging the three
    /// corner normals for each fan triangle. A polygon with fewer than
    /// three vertices yields no triangles.
    pub fn triangulate(&self) -> (r: Vec<Triangle>)
        requires
            self.wf(),
            forall|i: int|
                0 <= i < self.vertices@.len() ==> (#[trigger] self.vertices@[i]).normal.in_range(
                    TRIANGULATE_LIMIT as int,
                ),
        ensures
            r@.len() == if self.vertices@.len() < 2 {
                0int
            } else {
                self.vertices@.len() - 2
            },
            forall|k: int| 0 <= k < r@.len() ==> (#[trigger] r@[k]) == fan_at(self.vertices@, k),
    {
        proof {
            assert(0x100000int * 0x100000int == 0x10000000000 && 0x10000000000int * 0x100000int
                == 0x1000000000000000) by (nonlinear_arith);
        }
        let ghost s = self.vertices@;
        let mut out: Vec<Triangle> = Vec::new();
        if self.vertices.len() < 3 {
            return out;
        }
        let n = self.vertices.len();
        let mut i: usize = 1;
        while i < n - 1
            invariant
                1 <= i <= n - 1,
                n == s.len(),
                3 <= n,
                self.vertices@ == s,
                self.wf(),
                forall|k: int|
                    0 <= k < s.len() ==> (#[trigger] s[k]).normal.in_range(TRIANGULATE_LIMIT as int),
                out@.len() == i - 1,
                forall|k: int| 0 <= k < out@.len() ==> (#[trigger] out@[k]) == fan_at(s, k),
            decreases n - i,
        {
            proof {
                assert(0x100000int * 0x100000int == 0x10000000000 && 0x10000000000int
                    * 0x100000int == 0x1000000000000000) by (nonlinear_arith);
            }
            let v0 = self.vertices[0];
            let v1 = self.vertices[i];
            let v2 = self.vertices[i + 1];
            let ga: Ghost<(int, int)> = Ghost((0x100000int, 0x100000int));
            let gb: Ghost<(int, int)> = Ghost((0x10000000000int, 0x100000int));
            let a = v0.normal;
            let b = v1.normal;
            let c = v2.normal;
            let nx: i128 = muli(muli(a.x as i128, b.d as i128, ga), c.d as i128, gb) + muli(
                muli(b.x as i128, a.d as i128, ga),
                c.d as i128,
                gb,
            ) + muli(muli(c.x as i128, a.d as i128, ga), b.d as i128, gb);
            let ny: i128 = muli(muli(a.y as i128, b.d as i128, ga), c.d as i128, gb) + muli(
                muli(b.y as i128, a.d as i128, ga),
                c.d as i128,
                gb,
            ) + muli(muli(c.y as i128, a.d as i128, ga), b.d as i128, gb);
            let nz: i128 = muli(muli(a.z as i128, b.d as i128, ga), c.d as i128, gb) + muli(
                muli(b.z as i128, a.d as i128, ga),
                c.d as i128,
                gb,
            ) + muli(muli(c.z as i128, a.d as i128, ga), b.d as i128, gb);
            let nd: i128 = 3 * muli(muli(a.d as i128, b.d as i128, ga), c.d as i128, gb);
            proof {
                assert((a.d * b.d) * c.d >= 1) by (nonlinear_arith)
                    requires
                        1 <= a.d,
                        1 <= b.d,
                        1 <= c.d,
                ;
            }
            let normal = Vec3 { x: nx as i64, y: ny as i64, z: nz as i64, d: nd as i64 };
            out.push(
                Triangle {
                    points: [v0.point, v1.point, v2.point],
                    uvs: [v0.uv, v1.uv, v2.uv],
                    normal,
                },
            );
            i += 1;
        }
        out
    }

    /// The intersection point of a ray with the polygon: the ray is cut
    /// against the supporting plane through vertex 0, and the hit counts
    /// only if it lies strictly inside every wraparound edge, under
    /// `edge_inside`'s denominator-scaled tolerance. Returns `None`
    /// otherwise, and always on a polygon with no vertices.
    #[verifier::rlimit(50)]
    pub fn intersect_ray(&self, ray: &crate::Ray) -> (r: Option<Vec3>)
        requires
            forall|i: int|
                0 <= i < self.vertices@.len() ==> (#[trigger] self.vertices@[i]).point.in_range(
                    POLY_RAY_LIMIT as int,
                ) && self.vertices@[i].normal.in_range(POLY_RAY_NORMAL_LIMIT as int),
            ray.0.in_range(POLY_RAY_LIMIT as int),
            ray.1.in_range(POLY_RAY_LIMIT as int),
        ensures
            r.is_some() <==> poly_ray_hit(self.vertices@, ray.0, ray.1),
            r matches Some(v) ==> {
                let (x, y, z, d) = ray_point(poly_carrier(self.vertices@), ray.0, ray.1);
                v.x == x && v.y == y && v.z == z && v.d == d
            },
            r matches Some(v) ==> v.wf() && v.in_range(TRI_SEG_POINT_LIMIT as int),
    {
        proof {
            assert(0x800000int * 0x20int == 0x10000000 && 0x30000000int * 0x20int == 0x600000000
                && 0xC00000000int * 0x20int == 0x18000000000 && 0x18000000000int * 0x800000int
                == 0xC000000000000000 && 0x20int * 0x20int == 0x400 && 0x400int * 0x30000000int
                == 0xC000000000 && 0x20int * 0x30000000int == 0x600000000 && 0x20int
                * 0x600000000int == 0xC000000000) by (nonlinear_arith);
        }
        if self.vertices.is_empty() {
            return None;
        }
        let o = ray.0;
        let dir = ray.1;
        let v0 = self.vertices[0];
        let n = v0.normal;
        let p0 = v0.point;
        let nd: i128 = dot3(&n, &dir, Ghost((0x800000int, 0x20int)));
        let nd_abs: i128 = if nd < 0 {
            -nd
        } else {
            nd
        };
        let dn_dd: i128 = muli(n.d as i128, dir.d as i128, Ghost((0x800000int, 0x20int)));
        if muli(nd_abs, EPS_DEN as i128, Ghost((0x30000000int, 0x800000int))) <= dn_dd {
            return None;
        }
        let no: i128 = dot3(&n, &o, Ghost((0x800000int, 0x20int)));
        let np: i128 = dot3(&n, &p0, Ghost((0x800000int, 0x20int)));
        let v: i128 = muli(np, o.d as i128, Ghost((0x30000000int, 0x20int))) - muli(
            no,
            p0.d as i128,
            Ghost((0x30000000int, 0x20int)),
        );
        let tl: i128 = muli(
            muli(v, dir.d as i128, Ghost((0xC00000000int, 0x20int))),
            EPS_DEN as i128,
            Ghost((0x18000000000int, 0x800000int)),
        );
        let q: i128 = muli(
            muli(p0.d as i128, o.d as i128, Ghost((0x20int, 0x20int))),
            nd,
            Ghost((0x400int, 0x30000000int)),
        );
        let behind: bool = if nd > 0 {
            tl < q
        } else {
            tl > q
        };
        if behind {
            return None;
        }
        let pnd: i128 = muli(p0.d as i128, nd, Ghost((0x20int, 0x30000000int)));
        let gt: Ghost<(int, int)> = Ghost((0x20int, 0x600000000int));
        let gu: Ghost<(int, int)> = Ghost((0xC00000000int, 0x20int));
        let px: i128 = muli(o.x as i128, pnd, gt) + muli(v, dir.x as i128, gu);
        let py: i128 = muli(o.y as i128, pnd, gt) + muli(v, dir.y as i128, gu);
        let pz: i128 = muli(o.z as i128, pnd, gt) + muli(v, dir.z as i128, gu);
        let pd: i128 = muli(o.d as i128, pnd, gt);
        proof {
            assert(dn_dd >= 1) by (nonlinear_arith)
                requires
                    dn_dd == n.d * dir.d,
                    1 <= n.d,
                    1 <= dir.d,
            ;
            assert(nd != 0) by (nonlinear_arith)
                requires
                    0 <= nd_abs,
                    nd_abs * EPS_DEN > dn_dd,
                    dn_dd >= 1,
                    EPS_DEN >= 1,
                    nd < 0 ==> nd_abs == -nd,
                    nd >= 0 ==> nd_abs == nd,
            ;
            assert(pd != 0 && (pd > 0 <==> nd > 0)) by (nonlinear_arith)
                requires
                    pd == o.d * (p0.d * nd),
                    nd != 0,
                    1 <= o.d,
                    1 <= p0.d,
            ;
        }
        let pt: Vec3 = if pd > 0 {
            Vec3 { x: px as i64, y: py as i64, z: pz as i64, d: pd as i64 }
        } else {
            Vec3 { x: (-px) as i64, y: (-py) as i64, z: (-pz) as i64, d: (-pd) as i64 }
        };
        let len = self.vertices.len();
        let mut i: usize = 0;
        while i < len
            invariant
                i <= len,
                len == self.vertices@.len(),
                1 <= len,
                forall|k: int|
                    0 <= k < len ==> (#[trigger] self.vertices@[k]).point.in_range(
                        POLY_RAY_LIMIT as int,
                    ) && self.vertices@[k].normal.in_range(POLY_RAY_NORMAL_LIMIT as int),
                n == self.vertices@[0].normal,
                pt.in_range(TRI_SEG_POINT_LIMIT as int),
                ({
                    let (x, y, z, d) = ray_point(poly_carrier(self.vertices@), ray.0, ray.1);
                    pt.x == x && pt.y == y && pt.z == z && pt.d == d
                }),
                forall|k: int|
                    0 <= k < i ==> edge_inside(
                        (#[trigger] self.vertices@[k]).point,
                        self.vertices@[if k + 1 == len as int {
                            0int
                        } else {
                            k + 1
                        }].point,
                        self.vertices@[0].normal,
                        pt.x as int,
                        pt.y as int,
                        pt.z as int,
                        pt.d as int,
                    ),
            decreases len - i,
        {
            let j = if i + 1 == len {
                0
            } else {
                i + 1
            };
            let inside = edge_test(&self.vertices[i].point, &self.vertices[j].point, &n, &pt);
            if !inside {
                return None;
            }
            i += 1;
        }
        Some(pt)
    }
}

} // verus!
