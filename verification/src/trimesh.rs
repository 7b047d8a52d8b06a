//! A mesh made up of triangles, and its separation into loose parts.

use vstd::prelude::*;
use vstd::seq_lib::lemma_multiset_commutative;
use vstd::multiset::Multiset;
use vstd::seq_lib::group_to_multiset_ensures;
use crate::triangle::Triangle;
use crate::triangle::modifiers::{subdivided4, SUBDIVIDE_LIMIT};
use crate::vector::vec3_eq;

verus! {

/// A mesh made up of triangles, in no particular order.
#[derive(Clone, Debug)]
pub struct TriMesh {
    pub triangles: Vec<Triangle>,
}


/// Every triangle of a list subdivided into its four parts, in order.
pub open spec fn subdivided_all(s: Seq<Triangle>) -> Seq<Triangle>
    decreases s.len(),
{
    if s.len() == 0 {
        Seq::empty()
    } else {
        subdivided_all(s.drop_last()) + subdivided4(s.last())
    }
}

/// Two triangles are adjacent: they share at least one vertex, comparing
/// points by value.
pub open spec fn tri_share_vertex(a: Triangle, b: Triangle) -> bool {
    ||| vec3_eq(a.points[0], b.points[0])
    ||| vec3_eq(a.points[0], b.points[1])
    ||| vec3_eq(a.points[0], b.points[2])
    ||| vec3_eq(a.points[1], b.points[0])
    ||| vec3_eq(a.points[1], b.points[1])
    ||| vec3_eq(a.points[1], b.points[2])
    ||| vec3_eq(a.points[2], b.points[0])
    ||| vec3_eq(a.points[2], b.points[1])
    ||| vec3_eq(a.points[2], b.points[2])
}

/// Two groups of triangles are connected: some triangle of one shares a
/// vertex with some triangle of the other.
pub open spec fn seqs_connected(a: Seq<Triangle>, b: Seq<Triangle>) -> bool {
    exists|i: int, j: int|
        0 <= i < a.len() && 0 <= j < b.len() && tri_share_vertex(#[trigger] a[i], #[trigger] b[j])
}

/// All triangles held by a list of meshes, as a multiset.
pub open spec fn total_multiset(ms: Seq<TriMesh>) -> Multiset<Triangle>
    decreases ms.len(),
{
    if ms.len() == 0 {
        Multiset::empty()
    } else {
        total_multiset(ms.drop_last()).add(ms.last().triangles@.to_multiset())
    }
}

/// Sharing a vertex is symmetric.
proof fn lemma_share_sym(a: Triangle, b: Triangle)
    ensures
        tri_share_vertex(a, b) <==> tri_share_vertex(b, a),
{
}

/// Connectivity between groups is symmetric.
proof fn lemma_connected_sym(a: Seq<Triangle>, b: Seq<Triangle>)
    ensures
        seqs_connected(a, b) <==> seqs_connected(b, a),
{
    if seqs_connected(a, b) {
        let (i, j) = choose|i: int, j: int|
            0 <= i < a.len() && 0 <= j < b.len() && tri_share_vertex(#[trigger] a[i], #[trigger] b[j]);
        lemma_share_sym(a[i], b[j]);
        assert(tri_share_vertex(b[j], a[i]));
    }
    if seqs_connected(b, a) {
        let (i, j) = choose|i: int, j: int|
            0 <= i < b.len() && 0 <= j < a.len() && tri_share_vertex(#[trigger] b[i], #[trigger] a[j]);
        lemma_share_sym(b[i], a[j]);
        assert(tri_share_vertex(a[j], b[i]));
    }
}

/// A concatenation is connected to a group exactly when either half is.
proof fn lemma_connected_concat(a: Seq<Triangle>, b: Seq<Triangle>, c: Seq<Triangle>)
    ensures
        seqs_connected(a + b, c) <==> (seqs_connected(a, c) || seqs_connected(b, c)),
{
    if seqs_connected(a + b, c) {
        let (i, j) = choose|i: int, j: int|
            0 <= i < (a + b).len() && 0 <= j < c.len() && tri_share_vertex(
                #[trigger] (a + b)[i],
                #[trigger] c[j],
            );
        if i < a.len() {
            assert(tri_share_vertex(a[i], c[j]));
        } else {
            assert(tri_share_vertex(b[i - a.len()], c[j]));
        }
    }
    if seqs_connected(a, c) {
        let (i, j) = choose|i: int, j: int|
            0 <= i < a.len() && 0 <= j < c.len() && tri_share_vertex(#[trigger] a[i], #[trigger] c[j]);
        assert(tri_share_vertex((a + b)[i], c[j]));
    }
    if seqs_connected(b, c) {
        let (i, j) = choose|i: int, j: int|
            0 <= i < b.len() && 0 <= j < c.len() && tri_share_vertex(#[trigger] b[i], #[trigger] c[j]);
        assert(tri_share_vertex((a + b)[a.len() + i], c[j]));
    }
}

/// Appending a mesh to a list adds its triangles to the total.
proof fn lemma_total_push(ms: Seq<TriMesh>, m: TriMesh)
    ensures
        total_multiset(ms.push(m)) =~= total_multiset(ms).add(m.triangles@.to_multiset()),
{
    assert(ms.push(m).drop_last() =~= ms);
    assert(ms.push(m).last() == m);
}

/// Removing a mesh from a list takes exactly its triangles out of the
/// total.
proof fn lemma_total_remove(ms: Seq<TriMesh>, k: int)
    requires
        0 <= k < ms.len(),
    ensures
        total_multiset(ms.remove(k)).add(ms[k].triangles@.to_multiset()) =~= total_multiset(ms),
    decreases ms.len(),
{
    if k == ms.len() - 1 {
        assert(ms.remove(k) =~= ms.drop_last());
    } else {
        assert(ms.remove(k).drop_last() =~= ms.drop_last().remove(k));
        assert(ms.remove(k).last() == ms.last());
        lemma_total_remove(ms.drop_last(), k);
        assert(total_multiset(ms.remove(k)) == total_multiset(ms.drop_last().remove(k)).add(
            ms.last().triangles@.to_multiset(),
        ));
    }
}


/// A group of triangles is vertex-connected: every way of parting its
/// indices into a side inside `part` and a side outside it — both sides
/// inhabited, witnessed by `wi` and `wj` — has an adjacent pair across the
/// parting. Together with pairwise disconnection and the multiset
/// partition, this makes the separator's outputs exactly the connected
/// components.
pub open spec fn group_connected(s: Seq<Triangle>) -> bool {
    forall|part: Set<int>, wi: int, wj: int|
        #![trigger part.contains(wi), part.contains(wj)]
        (0 <= wi < s.len() && part.contains(wi) && 0 <= wj < s.len() && !part.contains(wj))
            ==> exists|i: int, j: int|
            #![trigger part.contains(i), part.contains(j)]
            0 <= i < s.len() && 0 <= j < s.len() && part.contains(i) && !part.contains(j)
                && tri_share_vertex(s[i], s[j])
}

/// A single triangle is a connected group.
proof fn lemma_connected_single(s: Seq<Triangle>)
    requires
        s.len() == 1,
    ensures
        group_connected(s),
{
    assert forall|part: Set<int>, wi: int, wj: int|
        (0 <= wi < s.len() && part.contains(wi) && 0 <= wj < s.len() && !part.contains(
            wj,
        )) implies (exists|i: int, j: int|
        #![trigger part.contains(i), part.contains(j)]
        0 <= i < s.len() && 0 <= j < s.len() && part.contains(i) && !part.contains(j)
            && tri_share_vertex(s[i], s[j])) by {
        assert(wi == 0 && wj == 0);
        assert(false);
    }
}

/// Two connected groups that share a vertex form one connected group.
proof fn lemma_connected_union(a: Seq<Triangle>, b: Seq<Triangle>)
    requires
        group_connected(a),
        group_connected(b),
        seqs_connected(a, b),
    ensures
        group_connected(a + b),
{
    let c = a + b;
    assert forall|part: Set<int>, wi: int, wj: int|
        (0 <= wi < c.len() && part.contains(wi) && 0 <= wj < c.len() && !part.contains(
            wj,
        )) implies (exists|i: int, j: int|
        #![trigger part.contains(i), part.contains(j)]
        0 <= i < c.len() && 0 <= j < c.len() && part.contains(i) && !part.contains(j)
            && tri_share_vertex(c[i], c[j])) by {
        let pb = Set::new(|k: int| part.contains(k + a.len()));
        let has_a_in = exists|i: int| 0 <= i < a.len() && #[trigger] part.contains(i);
        let has_a_out = exists|j: int| 0 <= j < a.len() && !(#[trigger] part.contains(j));
        let has_b_in = exists|i: int| 0 <= i < b.len() && #[trigger] pb.contains(i);
        let has_b_out = exists|j: int| 0 <= j < b.len() && !(#[trigger] pb.contains(j));
        if has_a_in && has_a_out {
            // The parting already cuts through `a`.
            let i0 = choose|i: int| 0 <= i < a.len() && #[trigger] part.contains(i);
            let j0 = choose|j: int| 0 <= j < a.len() && !(#[trigger] part.contains(j));
            assert(part.contains(i0) && !part.contains(j0));
            let (i1, j1) = choose|i: int, j: int|
                #![trigger part.contains(i), part.contains(j)]
                0 <= i < a.len() && 0 <= j < a.len() && part.contains(i) && !part.contains(j)
                    && tri_share_vertex(a[i], a[j]);
            assert(c[i1] == a[i1] && c[j1] == a[j1]);
            assert(part.contains(i1) && !part.contains(j1) && tri_share_vertex(c[i1], c[j1]));
        } else if has_b_in && has_b_out {
            // The parting cuts through `b`; shift its indices down.
            let i0 = choose|i: int| 0 <= i < b.len() && #[trigger] pb.contains(i);
            let j0 = choose|j: int| 0 <= j < b.len() && !(#[trigger] pb.contains(j));
            assert(pb.contains(i0) && !pb.contains(j0));
            let (i1, j1) = choose|i: int, j: int|
                #![trigger pb.contains(i), pb.contains(j)]
                0 <= i < b.len() && 0 <= j < b.len() && pb.contains(i) && !pb.contains(j)
                    && tri_share_vertex(b[i], b[j]);
            assert(c[a.len() + i1] == b[i1] && c[a.len() + j1] == b[j1]);
            assert(part.contains(a.len() + i1) && !part.contains(a.len() + j1)
                && tri_share_vertex(c[a.len() + i1], c[a.len() + j1]));
        } else {
            // Each half lies wholly on one side of the parting, so the two
            // halves are on opposite sides; the shared vertex crosses it.
            let (si, sj) = choose|i: int, j: int|
                0 <= i < a.len() && 0 <= j < b.len() && tri_share_vertex(
                    #[trigger] a[i],
                    #[trigger] b[j],
                );
            assert(c[si] == a[si] && c[a.len() + sj] == b[sj]);
            if part.contains(si) {
                // All of `a` is inside, so the outside witness lies in `b`,
                // and with it all of `b`.
                assert(!has_a_out);
                assert(wj >= a.len() && !pb.contains(wj - a.len()));
                assert(!has_b_in);
                assert(!pb.contains(sj));
                assert(part.contains(si) && !part.contains(a.len() + sj) && tri_share_vertex(
                    c[si],
                    c[a.len() + sj],
                ));
            } else {
                // All of `a` is outside, so the inside witness lies in `b`,
                // and with it all of `b`.
                assert(!has_a_in);
                assert(wi >= a.len() && pb.contains(wi - a.len()));
                assert(!has_b_out);
                assert(pb.contains(sj));
                lemma_share_sym(a[si], b[sj]);
                assert(part.contains(a.len() + sj) && !part.contains(si) && tri_share_vertex(
                    c[a.len() + sj],
                    c[si],
                ));
            }
        }
    }
}

/// Whether some triangle of `a` shares a vertex with some triangle of `b`.
fn is_connected(a: &Vec<Triangle>, b: &Vec<Triangle>) -> (r: bool)
    ensures
        r == seqs_connected(a@, b@),
{
    let mut i: usize = 0;
    while i < a.len()
        invariant
            i <= a@.len(),
            forall|ii: int, jj: int|
                0 <= ii < i && 0 <= jj < b@.len() ==> !tri_share_vertex(
                    #[trigger] a@[ii],
                    #[trigger] b@[jj],
                ),
        decreases a@.len() - i,
    {
        let ta = &a[i];
        let mut j: usize = 0;
        while j < b.len()
            invariant
                i < a@.len(),
                j <= b@.len(),
                *ta == a@[i as int],
                forall|jj: int| 0 <= jj < j ==> !tri_share_vertex(a@[i as int], #[trigger] b@[jj]),
            decreases b@.len() - j,
        {
            let tb = &b[j];
            if ta.points[0] == tb.points[0] || ta.points[0] == tb.points[1] || ta.points[0]
                == tb.points[2] || ta.points[1] == tb.points[0] || ta.points[1] == tb.points[1]
                || ta.points[1] == tb.points[2] || ta.points[2] == tb.points[0] || ta.points[2]
                == tb.points[1] || ta.points[2] == tb.points[2] {
                assert(tri_share_vertex(a@[i as int], b@[j as int]));
                return true;
            }
            j += 1;
        }
        i += 1;
    }
    false
}

impl TriMesh {
    pub fn new(triangles: Vec<Triangle>) -> (r: Self)
        ensures
            r.triangles == triangles,
    {
        Self { triangles }
    }

    /// Adds a triangle to the mesh.
    pub fn add(&mut self, triangle: Triangle)
        ensures
            final(self).triangles@ == old(self).triangles@.push(triangle),
    {
        self.triangles.push(triangle);
    }

    /// Removes and returns the triangle at `index` from the mesh.
    pub fn remove(&mut self, index: usize) -> (r: Triangle)
        requires
            index < old(self).triangles@.len(),
        ensures
            r == old(self).triangles@[index as int],
            final(self).triangles@ == old(self).triangles@.remove(index as int),
    {
        self.triangles.remove(index)
    }

    /// The number of triangles this mesh holds.
    pub fn tricount(&self) -> (r: usize)
        ensures
            r == self.triangles@.len(),
    {
        self.triangles.len()
    }

    /// The number of triangles this mesh holds.
    pub fn triangle_count(&self) -> (r: usize)
        ensures
            r == self.triangles@.len(),
    {
        self.triangles.len()
    }

    /// The nth triangle; the index must be below the count.
    pub fn triangle(&self, index: usize) -> (r: Triangle)
        requires
            index < self.triangles@.len(),
        ensures
            r == self.triangles@[index as int],
    {
        self.triangles[index]
    }


    /// Subdivides every triangle into four triangles, keeping the order of
    /// the input and the four-way order of each triangle's parts.
    pub fn subdivide(&self) -> (r: TriMesh)
        requires
            forall|i: int|
                0 <= i < self.triangles@.len() ==> (#[trigger] self.triangles@[i]).coords_in_range(
                    SUBDIVIDE_LIMIT as int,
                ) && self.triangles@[i].normal.wf(),
        ensures
            r.triangles@ == subdivided_all(self.triangles@),
    {
        let ghost inp = self.triangles@;
        let mut out: Vec<Triangle> = Vec::new();
        let n = self.triangles.len();
        let mut i: usize = 0;
        proof {
            assert(inp.take(0) =~= Seq::<Triangle>::empty());
        }
        while i < n
            invariant
                i <= n,
                n == inp.len(),
                self.triangles@ == inp,
                forall|k: int|
                    0 <= k < inp.len() ==> (#[trigger] inp[k]).coords_in_range(
                        SUBDIVIDE_LIMIT as int,
                    ) && inp[k].normal.wf(),
                out@ == subdivided_all(inp.take(i as int)),
            decreases n - i,
        {
            let parts = self.triangles[i].subdivide();
            out.push(parts[0]);
            out.push(parts[1]);
            out.push(parts[2]);
            out.push(parts[3]);
            proof {
                assert(parts@ =~= subdivided4(inp[i as int]));
                assert(inp.take(i as int + 1).drop_last() =~= inp.take(i as int));
                assert(inp.take(i as int + 1).last() == inp[i as int]);
                assert(out@ =~= subdivided_all(inp.take(i as int + 1)));
            }
            i += 1;
        }
        proof {
            assert(inp.take(inp.len() as int) =~= inp);
        }
        TriMesh { triangles: out }
    }

    /// Separates any loose parts into their own mesh: triangles that share
    /// a vertex, directly or through other triangles, end up in the same
    /// output mesh.
    ///
    /// The output meshes partition the input exactly — no triangle is
    /// duplicated or dropped — no two output meshes share a vertex, and
    /// each output mesh hangs together through shared vertices: the
    /// outputs are exactly the connected components.
    pub fn separate_by_loose_parts(self) -> (r: Vec<TriMesh>)
        ensures
            total_multiset(r@) == self.triangles@.to_multiset(),
            forall|i: int, j: int|
                0 <= i < j < r@.len() ==> !seqs_connected(
                    (#[trigger] r@[i]).triangles@,
                    (#[trigger] r@[j]).triangles@,
                ),
            forall|i: int| 0 <= i < r@.len() ==> (#[trigger] r@[i]).triangles@.len() > 0,
            forall|i: int| 0 <= i < r@.len() ==> group_connected((#[trigger] r@[i]).triangles@),
    {
        broadcast use group_to_multiset_ensures;
        broadcast use vstd::multiset::group_multiset_axioms;

        let input = self.triangles;
        let ghost inp = input@;
        let mut meshes: Vec<TriMesh> = Vec::new();
        let mut idx: usize = 0;
        proof {
            assert(inp.take(0) =~= Seq::<Triangle>::empty());
            assert(inp.take(0).to_multiset() =~= Multiset::<Triangle>::empty());
        }
        while idx < input.len()
            invariant
                idx <= inp.len(),
                input@ == inp,
                total_multiset(meshes@) == inp.take(idx as int).to_multiset(),
                forall|i: int, j: int|
                    0 <= i < j < meshes@.len() ==> !seqs_connected(
                        (#[trigger] meshes@[i]).triangles@,
                        (#[trigger] meshes@[j]).triangles@,
                    ),
                forall|i: int| 0 <= i < meshes@.len() ==> (#[trigger] meshes@[i]).triangles@.len() > 0,
                forall|i: int|
                    0 <= i < meshes@.len() ==> group_connected((#[trigger] meshes@[i]).triangles@),
            decreases inp.len() - idx,
        {
            let t = input[idx];
            let mut out: Vec<Triangle> = Vec::new();
            out.push(t);
            proof {
                assert(inp.take(idx as int + 1) =~= inp.take(idx as int).push(inp[idx as int]));
                assert(out@ =~= Seq::<Triangle>::empty().push(t));
                lemma_connected_single(out@);
                vstd::seq_lib::to_multiset_len::<Triangle>(Seq::<Triangle>::empty());
                Seq::<Triangle>::empty().to_multiset_ensures();
                inp.take(idx as int).to_multiset_ensures();
                vstd::multiset::lemma_multiset_empty_len::<Triangle>(
                    Seq::<Triangle>::empty().to_multiset(),
                );
                assert(out@.to_multiset() =~= Multiset::<Triangle>::empty().insert(t));
                assert(total_multiset(meshes@).add(out@.to_multiset()) =~= inp.take(
                    idx as int + 1,
                ).to_multiset());
            }
            let mut k: usize = 0;
            while k < meshes.len()
                invariant
                    k <= meshes@.len(),
                    out@.len() > 0,
                    total_multiset(meshes@).add(out@.to_multiset()) == inp.take(
                        idx as int + 1,
                    ).to_multiset(),
                    forall|i: int, j: int|
                        0 <= i < j < meshes@.len() ==> !seqs_connected(
                            (#[trigger] meshes@[i]).triangles@,
                            (#[trigger] meshes@[j]).triangles@,
                        ),
                    forall|i: int| 0 <= i < meshes@.len() ==> (#[trigger] meshes@[i]).triangles@.len()
                        > 0,
                    forall|kk: int|
                        0 <= kk < k ==> !seqs_connected(
                            out@,
                            (#[trigger] meshes@[kk]).triangles@,
                        ),
                    group_connected(out@),
                    forall|i: int|
                        0 <= i < meshes@.len() ==> group_connected(
                            (#[trigger] meshes@[i]).triangles@,
                        ),
                decreases meshes@.len() - k,
            {
                let connected = is_connected(&out, &meshes[k].triangles);
                if connected {
                    let ghost pre_meshes = meshes@;
                    let ghost pre_out = out@;
                    let mut m = meshes.remove(k);
                    out.append(&mut m.triangles);
                    proof {
                        lemma_total_remove(pre_meshes, k as int);
                        lemma_multiset_commutative(pre_out, pre_meshes[k as int].triangles@);
                        // The accumulator and the absorbed group each hang
                        // together and share a vertex, so their union hangs
                        // together.
                        lemma_connected_union(pre_out, pre_meshes[k as int].triangles@);
                        assert forall|i: int| 0 <= i < meshes@.len() implies group_connected(
                            (#[trigger] meshes@[i]).triangles@,
                        ) by {
                            let oi = if i < k { i } else { i + 1 };
                            assert(meshes@[i] == pre_meshes[oi]);
                        }
                        assert(total_multiset(meshes@).add(out@.to_multiset()) =~= inp.take(
                            idx as int + 1,
                        ).to_multiset());
                        // The absorbed group was disconnected from every
                        // group before `k`, so the grown accumulator still
                        // is.
                        assert forall|kk: int| 0 <= kk < k implies !seqs_connected(
                            out@,
                            (#[trigger] meshes@[kk]).triangles@,
                        ) by {
                            assert(meshes@[kk] == pre_meshes[kk]);
                            lemma_connected_concat(
                                pre_out,
                                pre_meshes[k as int].triangles@,
                                pre_meshes[kk].triangles@,
                            );
                            lemma_connected_sym(
                                pre_meshes[k as int].triangles@,
                                pre_meshes[kk].triangles@,
                            );
                            lemma_connected_sym(
                                pre_meshes[kk].triangles@,
                                pre_meshes[k as int].triangles@,
                            );
                        }
                        assert forall|i: int, j: int| 0 <= i < j < meshes@.len()
                            implies !seqs_connected(
                            (#[trigger] meshes@[i]).triangles@,
                            (#[trigger] meshes@[j]).triangles@,
                        ) by {
                            let oi = if i < k { i } else { i + 1 };
                            let oj = if j < k { j } else { j + 1 };
                            assert(meshes@[i] == pre_meshes[oi]);
                            assert(meshes@[j] == pre_meshes[oj]);
                        }
                    }
                } else {
                    k += 1;
                }
            }
            let ghost pre_meshes = meshes@;
            let finished = TriMesh { triangles: out };
            let ghost gfin = finished;
            meshes.push(finished);
            proof {
                lemma_total_push(pre_meshes, gfin);
                assert(meshes@ == pre_meshes.push(gfin));
                // The finished group is disconnected from every earlier
                // group, in both directions.
                assert forall|i: int, j: int| 0 <= i < j < meshes@.len() implies !seqs_connected(
                    (#[trigger] meshes@[i]).triangles@,
                    (#[trigger] meshes@[j]).triangles@,
                ) by {
                    if j == meshes@.len() - 1 {
                        lemma_connected_sym(out@, pre_meshes[i].triangles@);
                    }
                }
            }
            idx += 1;
        }
        proof {
            assert(inp.take(inp.len() as int) =~= inp);
        }
        meshes
    }
}

} // verus!
