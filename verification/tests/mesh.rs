use meshellaneous::trimesh::TriMesh;
use meshellaneous::triangle::Triangle;
use meshellaneous::vector::Vec3;

fn tri(p0: (i64, i64, i64), p1: (i64, i64, i64), p2: (i64, i64, i64)) -> Triangle {
    Triangle::from_points([
        Vec3::new(p0.0, p0.1, p0.2, 1),
        Vec3::new(p1.0, p1.1, p1.2, 1),
        Vec3::new(p2.0, p2.1, p2.2, 1),
    ])
}

#[test]
fn separate_disjoint_triangles() {
    let a = tri((0, 0, 0), (1, 0, 0), (0, 1, 0));
    let b = tri((5, 0, 0), (6, 0, 0), (5, 1, 0));
    let parts = TriMesh::new(vec![a, b]).separate_by_loose_parts();
    assert_eq!(parts.len(), 2);
    assert_eq!(parts[0].tricount(), 1);
    assert_eq!(parts[1].tricount(), 1);
}

#[test]
fn separate_bridged_triangles() {
    let a = tri((0, 0, 0), (1, 0, 0), (0, 1, 0));
    let b = tri((5, 0, 0), (6, 0, 0), (5, 1, 0));
    // The bridge shares one vertex with each of the two islands.
    let bridge = tri((1, 0, 0), (5, 0, 0), (3, 3, 0));
    let parts = TriMesh::new(vec![a, b, bridge]).separate_by_loose_parts();
    assert_eq!(parts.len(), 1);
    assert_eq!(parts[0].tricount(), 3);
}

#[test]
fn separate_keeps_every_triangle() {
    let a = tri((0, 0, 0), (1, 0, 0), (0, 1, 0));
    let b = tri((0, 0, 0), (-1, 0, 0), (0, -1, 0));
    let c = tri((9, 9, 9), (8, 9, 9), (9, 8, 9));
    let parts = TriMesh::new(vec![a, b, c]).separate_by_loose_parts();
    assert_eq!(parts.len(), 2);
    let total: usize = parts.iter().map(|m| m.triangles.len()).sum();
    assert_eq!(total, 3);
}

#[test]
fn separate_welds_equal_values() {
    // 1/1 and 2/2 hold the same point: vertices weld by value.
    let a = tri((0, 0, 0), (1, 0, 0), (0, 1, 0));
    let b = Triangle::from_points([
        Vec3::new(2, 0, 0, 2),
        Vec3::new(4, 0, 0, 2),
        Vec3::new(2, 2, 2, 2),
    ]);
    let parts = TriMesh::new(vec![a, b]).separate_by_loose_parts();
    assert_eq!(parts.len(), 1);
    assert_eq!(parts[0].tricount(), 2);
}

#[test]
fn subdivide_mesh() {
    let a = tri((0, 0, 0), (2, 0, 0), (0, 2, 0));
    let b = tri((4, 0, 0), (6, 0, 0), (4, 2, 0));
    let out = TriMesh::new(vec![a, b]).subdivide();
    assert_eq!(out.tricount(), 8);
    // The first corner piece keeps the original corner and halves the two
    // edges leaving it.
    assert_eq!(out.triangles[0].points[0], Vec3::new(0, 0, 0, 1));
    assert_eq!(out.triangles[0].points[1], Vec3::new(1, 0, 0, 1));
    assert_eq!(out.triangles[0].points[2], Vec3::new(0, 1, 0, 1));
    assert_eq!(out.triangles[4].points[0], Vec3::new(4, 0, 0, 1));
    assert_eq!(out.triangles[4].points[1], Vec3::new(5, 0, 0, 1));
    assert_eq!(out.triangles[4].points[2], Vec3::new(4, 1, 0, 1));
}
