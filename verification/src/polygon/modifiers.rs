//! Plane-slicing a polygon.

use vstd::prelude::*;
use crate::plane::{Plane, side_spec, side_num, side_den};
use crate::polygon::Polygon;
use crate::rat::{EPS_DEN, muli, lemma_pos3, lemma_scaled_sign, lemma_cut_den_sign};
use crate::side::Side;
use crate::triangle::modifiers::{
    cut, cut_point, cut_uv, opposite, side_num_exec, SLICE_LIMIT, SLICE_OUT_LIMIT,
};
use crate::vector::{Vec2, Vec3};
use crate::vertex::Vertex;

verus! {

/// Field-level value of a vertex normal interpolated at the same crossing
/// parameter as `cut_point`, between the corners `a` (current) and `b`
/// (previous).
pub open spec fn cut_normal(p: Plane, a: Vec3, b: Vec3, na: Vec3, nb: Vec3) -> (int, int, int, int) {
    let sa = side_num(p, a);
    let sb = side_num(p, b);
    let g = a.d * sb - b.d * sa;
    let x = (a.d * nb.d) * (na.x * sb) - (b.d * na.d) * (nb.x * sa);
    let y = (a.d * nb.d) * (na.y * sb) - (b.d * na.d) * (nb.y * sa);
    let z = (a.d * nb.d) * (na.z * sb) - (b.d * na.d) * (nb.z * sa);
    let d = (na.d * nb.d) * g;
    if d > 0 {
        (x, y, z, d)
    } else {
        (-x, -y, -z, -d)
    }
}

/// The vertex the polygon slicer appends to both accumulators where the
/// edge between the current vertex `a` and the previous vertex `b` crosses
/// the plane: position and texture coordinate as in the triangle slicer,
/// and the normal interpolated at the same parameter.
pub open spec fn poly_cut_vert(p: Plane, a: Vertex, b: Vertex) -> Vertex {
    let (x, y, z, d) = cut_point(p, a.point, b.point);
    let (u, v, ud) = cut_uv(p, a.point, b.point, a.uv, b.uv);
    let (nx, ny, nz, nd) = cut_normal(p, a.point, b.point, a.normal, b.normal);
    Vertex {
        point: Vec3 { x: x as i64, y: y as i64, z: z as i64, d: d as i64 },
        uv: Vec2 { x: u as i64, y: v as i64, d: ud as i64 },
        normal: Vec3 { x: nx as i64, y: ny as i64, z: nz as i64, d: nd as i64 },
    }
}

/// The ordered vertices one accumulator collects while the slicer walks
/// vertices `1 .. i` (inclusive), each classified against the plane, with a
/// crossing vertex appended after each edge that changes strict side.
pub open spec fn poly_verts(s: Seq<Vertex>, p: Plane, above: bool, i: int) -> Seq<Vertex>
    decreases i,
{
    if i < 1 {
        Seq::empty()
    } else {
        let prev = poly_verts(s, p, above, i - 1);
        let si = side_spec(p, s[i].point);
        let sl = side_spec(p, s[i - 1].point);
        let with_own = if (above && (si == Side::Above || si == Side::Coplanar)) || (!above && (si
            == Side::Below || si == Side::Coplanar)) {
            prev.push(s[i])
        } else {
            prev
        };
        if opposite(si, sl) {
            with_own.push(poly_cut_vert(p, s[i], s[i - 1]))
        } else {
            with_own
        }
    }
}

/// Everything one accumulator holds after the full pass.
pub open spec fn poly_slice_verts(s: Seq<Vertex>, p: Plane, above: bool) -> Seq<Vertex> {
    if s.len() == 0 {
        Seq::empty()
    } else {
        poly_verts(s, p, above, s.len() - 1)
    }
}

/// A collected vertex is well-formed, bounded, and on the accumulator's
/// side of the plane or on it.
pub open spec fn poly_vert_ok(p: Plane, v: Vertex, above: bool) -> bool {
    &&& v.wf()
    &&& v.in_range(SLICE_OUT_LIMIT as int)
    &&& if above {
        side_spec(p, v.point) != Side::Below
    } else {
        side_spec(p, v.point) != Side::Above
    }
}

/// Computes the crossing vertex between the current vertex `a` and the
/// previous vertex `b`.
fn poly_cut(p: &Plane, a: &Vertex, b: &Vertex) -> (r: Vertex)
    requires
        p.in_range(SLICE_LIMIT as int),
        a.in_range(SLICE_LIMIT as int),
        b.in_range(SLICE_LIMIT as int),
        opposite(side_spec(*p, a.point), side_spec(*p, b.point)),
    ensures
        r == poly_cut_vert(*p, *a, *b),
        r.wf(),
        r.in_range(SLICE_OUT_LIMIT as int),
        side_spec(*p, r.point) == Side::Coplanar,
{
    proof {
        assert(0x200int * 0x200int == 0x40000 && 0x200int * 0x30000000int == 0x6000000000
            && 0x40000int * 0x6000000000int == 0x180000000000000 && 0x40000int * 0xC000000000int
            == 0x300000000000000) by (nonlinear_arith);
    }
    let (point, uv) = cut(p, &a.point, &b.point, &a.uv, &b.uv);
    let sa: i128 = side_num_exec(p, &a.point);
    let sb: i128 = side_num_exec(p, &b.point);
    proof {
        lemma_pos3(p.normal.d as int, a.point.d as int, p.point.d as int);
        lemma_pos3(p.normal.d as int, b.point.d as int, p.point.d as int);
        lemma_scaled_sign(sa as int, EPS_DEN as int, side_den(*p, a.point));
        lemma_scaled_sign(sb as int, EPS_DEN as int, side_den(*p, b.point));
        lemma_cut_den_sign(a.point.d as int, b.point.d as int, sa as int, sb as int);
    }
    let gb: Ghost<(int, int)> = Ghost((0x200int, 0x30000000int));
    let g: i128 = muli(a.point.d as i128, sb, gb) - muli(b.point.d as i128, sa, gb);
    let na = a.normal;
    let nb = b.normal;
    let du: i128 = muli(a.point.d as i128, nb.d as i128, Ghost((0x200int, 0x200int)));
    let dv: i128 = muli(b.point.d as i128, na.d as i128, Ghost((0x200int, 0x200int)));
    let ub2: Ghost<(int, int)> = Ghost((0x40000int, 0x6000000000int));
    let nx: i128 = muli(du, muli(na.x as i128, sb, gb), ub2) - muli(
        dv,
        muli(nb.x as i128, sa, gb),
        ub2,
    );
    let ny: i128 = muli(du, muli(na.y as i128, sb, gb), ub2) - muli(
        dv,
        muli(nb.y as i128, sa, gb),
        ub2,
    );
    let nz: i128 = muli(du, muli(na.z as i128, sb, gb), ub2) - muli(
        dv,
        muli(nb.z as i128, sa, gb),
        ub2,
    );
    let nd: i128 = muli(
        muli(na.d as i128, nb.d as i128, Ghost((0x200int, 0x200int))),
        g,
        Ghost((0x40000int, 0xC000000000int)),
    );
    proof {
        assert((g > 0 ==> nd > 0) && (g < 0 ==> nd < 0)) by (nonlinear_arith)
            requires
                nd == (na.d * nb.d) * g,
                1 <= na.d,
                1 <= nb.d,
        ;
    }
    let normal: Vec3 = if nd > 0 {
        Vec3 { x: nx as i64, y: ny as i64, z: nz as i64, d: nd as i64 }
    } else {
        Vec3 { x: (-nx) as i64, y: (-ny) as i64, z: (-nz) as i64, d: (-nd) as i64 }
    };
    Vertex { point, uv, normal }
}

impl Polygon {
    /// Slices this polygon by the plane in one pass over its vertices,
    /// starting from vertex 0's classification as the initial side and
    /// advancing through the rest: each vertex joins the accumulator of its
    /// side (both when coplanar), and a crossing vertex — position, texture
    /// coordinate and normal interpolated at the crossing parameter — joins
    /// both accumulators wherever consecutive vertices fall on strictly
    /// opposite sides. An accumulator holding more than two vertices is
    /// appended to its output as one polygon; output is not re-triangulated.
    ///
    /// Every point of a polygon appended to `above` classifies `Above` or
    /// `Coplanar`, and likewise for `below`.
    #[verifier::rlimit(100)]
    pub fn slice(&self, plane: &Plane, above: &mut Vec<Polygon>, below: &mut Vec<Polygon>)
        requires
            forall|i: int|
                0 <= i < self.vertices@.len() ==> (#[trigger] self.vertices@[i]).in_range(
                    SLICE_LIMIT as int,
                ),
            plane.in_range(SLICE_LIMIT as int),
        ensures
            ({
                let av = poly_slice_verts(self.vertices@, *plane, true);
                &&& final(above)@.len() == old(above)@.len() + (if av.len() > 2 {
                    1int
                } else {
                    0int
                })
                &&& forall|k: int| 0 <= k < old(above)@.len() ==> final(above)@[k] == old(above)@[k]
                &&& av.len() > 2 ==> final(above)@.last().vertices@ == av
                &&& av.len() > 2 ==> forall|k: int|
                    0 <= k < av.len() ==> poly_vert_ok(*plane, #[trigger] av[k], true)
            }),
            ({
                let bv = poly_slice_verts(self.vertices@, *plane, false);
                &&& final(below)@.len() == old(below)@.len() + (if bv.len() > 2 {
                    1int
                } else {
                    0int
                })
                &&& forall|k: int| 0 <= k < old(below)@.len() ==> final(below)@[k] == old(below)@[k]
                &&& bv.len() > 2 ==> final(below)@.last().vertices@ == bv
                &&& bv.len() > 2 ==> forall|k: int|
                    0 <= k < bv.len() ==> poly_vert_ok(*plane, #[trigger] bv[k], false)
            }),
    {
        let ghost pl = *plane;
        let ghost s = self.vertices@;
        let mut va: Vec<Vertex> = Vec::new();
        let mut vb: Vec<Vertex> = Vec::new();
        if self.vertices.is_empty() {
            return;
        }
        let len = self.vertices.len();
        let mut last: Side = plane.side(self.vertices[0].point);
        let mut i: usize = 1;
        while i < len
            invariant
                1 <= i <= len,
                len == s.len(),
                self.vertices@ == s,
                plane.in_range(SLICE_LIMIT as int),
                *plane == pl,
                forall|k: int| 0 <= k < s.len() ==> (#[trigger] s[k]).in_range(SLICE_LIMIT as int),
                last == side_spec(pl, s[i - 1].point),
                va@ == poly_verts(s, pl, true, i - 1),
                vb@ == poly_verts(s, pl, false, i - 1),
                forall|k: int| 0 <= k < va@.len() ==> poly_vert_ok(pl, #[trigger] va@[k], true),
                forall|k: int| 0 <= k < vb@.len() ==> poly_vert_ok(pl, #[trigger] vb@[k], false),
            decreases len - i,
        {
            let vi = self.vertices[i];
            let si = plane.side(vi.point);
            if matches!(si, Side::Above | Side::Coplanar) {
                va.push(vi);
            }
            if matches!(si, Side::Below | Side::Coplanar) {
                vb.push(vi);
            }
            if matches!(si, Side::Above) && matches!(last, Side::Below) || matches!(si, Side::Below)
                && matches!(last, Side::Above) {
                let cv = poly_cut(plane, &vi, &self.vertices[i - 1]);
                va.push(cv);
                vb.push(cv);
            }
            last = si;
            i += 1;
        }
        if va.len() > 2 {
            above.push(Polygon { vertices: va });
        }
        if vb.len() > 2 {
            below.push(Polygon { vertices: vb });
        }
    }
}

} // verus!
