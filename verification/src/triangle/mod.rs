//! A triangle: three ordered points, their texture coordinates, one normal.


pub mod intersect;
pub mod modifiers;

use vstd::prelude::*;
use crate::rat::muli;
use crate::vector::{Vec2, Vec3};

verus! {

/// Largest coordinate magnitude accepted by the triangle constructors that
/// derive the normal from the points.
pub const FROM_POINTS_LIMIT: i64 = 0x4000;

/// Three ordered points with one texture coordinate each, and one normal
/// shared by the whole face.
///
/// The ordering of the points carries the winding and the correspondence
/// with `uvs`: the coordinate at index `i` belongs to the point at index
/// `i`. The normal is never re-derived when points change; callers that
/// need it recomputed build a new triangle through `from_points_uvs`.
#[derive(Clone, Copy, Debug)]
pub struct Triangle {
    pub points: [Vec3; 3],
    pub uvs: [Vec2; 3],
    pub normal: Vec3,
}

/// Field-level value of the normal derived from three points: the cross
/// product of the edges from point 0, over the denominator
/// `(d0 * d1) * (d0 * d2)`.
pub open spec fn from_points_normal(p0: Vec3, p1: Vec3, p2: Vec3) -> (int, int, int, int) {
    let ux = p1.x * p0.d - p0.x * p1.d;
    let uy = p1.y * p0.d - p0.y * p1.d;
    let uz = p1.z * p0.d - p0.z * p1.d;
    let wx = p2.x * p0.d - p0.x * p2.d;
    let wy = p2.y * p0.d - p0.y * p2.d;
    let wz = p2.z * p0.d - p0.z * p2.d;
    (
        uy * wz - uz * wy,
        uz * wx - ux * wz,
        ux * wy - uy * wx,
        (p0.d * p1.d) * (p0.d * p2.d),
    )
}

impl Triangle {
    pub open spec fn wf(self) -> bool {
        &&& self.points[0].wf()
        &&& self.points[1].wf()
        &&& self.points[2].wf()
        &&& self.uvs[0].wf()
        &&& self.uvs[1].wf()
        &&& self.uvs[2].wf()
        &&& self.normal.wf()
    }

    /// Points and texture coordinates bounded in magnitude by `b`; the
    /// normal is only well-formed, since it may carry the larger fields
    /// that `from_points_uvs` derives.
    pub open spec fn coords_in_range(self, b: int) -> bool {
        &&& self.points[0].in_range(b)
        &&& self.points[1].in_range(b)
        &&& self.points[2].in_range(b)
        &&& self.uvs[0].in_range(b)
        &&& self.uvs[1].in_range(b)
        &&& self.uvs[2].in_range(b)
    }

    pub fn new(points: [Vec3; 3], uvs: [Vec2; 3], normal: Vec3) -> (r: Self)
        requires
            points[0].wf(),
            points[1].wf(),
            points[2].wf(),
            uvs[0].wf(),
            uvs[1].wf(),
            uvs[2].wf(),
            normal.wf(),
        ensures
            r == (Triangle { points, uvs, normal }),
    {
        Triangle { points, uvs, normal }
    }

    /// Derives the normal from the points as the cross product of the two
    /// edges leaving point 0, and builds the triangle.
    pub fn from_points_uvs(points: [Vec3; 3], uvs: [Vec2; 3]) -> (r: Self)
        requires
            points[0].in_range(FROM_POINTS_LIMIT as int),
            points[1].in_range(FROM_POINTS_LIMIT as int),
            points[2].in_range(FROM_POINTS_LIMIT as int),
            uvs[0].wf(),
            uvs[1].wf(),
            uvs[2].wf(),
        ensures
            r.points == points,
            r.uvs == uvs,
            ({
                let (x, y, z, d) = from_points_normal(points[0], points[1], points[2]);
                r.normal.x == x && r.normal.y == y && r.normal.z == z && r.normal.d == d
            }),
            r.wf(),
    {
        let p0 = points[0];
        let p1 = points[1];
        let p2 = points[2];
        let ux: i128 = sub_coord(p1.x, p0.d, p0.x, p1.d);
        let uy: i128 = sub_coord(p1.y, p0.d, p0.y, p1.d);
        let uz: i128 = sub_coord(p1.z, p0.d, p0.z, p1.d);
        let wx: i128 = sub_coord(p2.x, p0.d, p0.x, p2.d);
        let wy: i128 = sub_coord(p2.y, p0.d, p0.y, p2.d);
        let wz: i128 = sub_coord(p2.z, p0.d, p0.z, p2.d);
        let g: Ghost<(int, int)> = Ghost((0x20000000int, 0x20000000int));
        let nx: i128 = muli(uy, wz, g) - muli(uz, wy, g);
        let ny: i128 = muli(uz, wx, g) - muli(ux, wz, g);
        let nz: i128 = muli(ux, wy, g) - muli(uy, wx, g);
        let nd: i128 = muli(
            muli(p0.d as i128, p1.d as i128, Ghost((0x4000int, 0x4000int))),
            muli(p0.d as i128, p2.d as i128, Ghost((0x4000int, 0x4000int))),
            Ghost((0x10000000int, 0x10000000int)),
        );
        proof {
            assert(nd >= 1) by (nonlinear_arith)
                requires
                    nd == (p0.d * p1.d) * (p0.d * p2.d),
                    1 <= p0.d,
                    1 <= p1.d,
                    1 <= p2.d,
            ;
        }
        let normal = Vec3 { x: nx as i64, y: ny as i64, z: nz as i64, d: nd as i64 };
        Triangle { points, uvs, normal }
    }

    /// As `from_points_uvs`, with zero texture coordinates.
    pub fn from_points(points: [Vec3; 3]) -> (r: Self)
        requires
            points[0].in_range(FROM_POINTS_LIMIT as int),
            points[1].in_range(FROM_POINTS_LIMIT as int),
            points[2].in_range(FROM_POINTS_LIMIT as int),
        ensures
            r.points == points,
            r.uvs[0] == (Vec2 { x: 0, y: 0, d: 1 }),
            r.uvs[1] == (Vec2 { x: 0, y: 0, d: 1 }),
            r.uvs[2] == (Vec2 { x: 0, y: 0, d: 1 }),
            ({
                let (x, y, z, d) = from_points_normal(points[0], points[1], points[2]);
                r.normal.x == x && r.normal.y == y && r.normal.z == z && r.normal.d == d
            }),
            r.wf(),
    {
        let zero = Vec2 { x: 0, y: 0, d: 1 };
        Self::from_points_uvs(points, [zero, zero, zero])
    }

    /// The nth point; the index must be below three.
    pub fn point(&self, index: usize) -> (r: Vec3)
        requires
            index < 3,
        ensures
            r == self.points[index as int],
    {
        self.points[index]
    }

    /// The nth texture coordinate; the index must be below three.
    pub fn uv(&self, index: usize) -> (r: Vec2)
        requires
            index < 3,
        ensures
            r == self.uvs[index as int],
    {
        self.uvs[index]
    }
}

/// One coordinate of the difference of two points, `ac * bd - bc * ad`.
fn sub_coord(ac: i64, bd: i64, bc: i64, ad: i64) -> (r: i128)
    requires
        -0x4000 <= ac <= 0x4000,
        -0x4000 <= bc <= 0x4000,
        1 <= ad <= 0x4000,
        1 <= bd <= 0x4000,
    ensures
        r == ac * bd - bc * ad,
        -0x20000000 <= r <= 0x20000000,
{
    let t1: i128 = muli(ac as i128, bd as i128, Ghost((0x4000int, 0x4000int)));
    let t2: i128 = muli(bc as i128, ad as i128, Ghost((0x4000int, 0x4000int)));
    t1 - t2
}

} // verus!
