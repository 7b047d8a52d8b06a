use meshellaneous::plane::Plane;
use meshellaneous::triangle::Triangle;
use meshellaneous::vector::{Vec2, Vec3};

fn test_triangle() -> Triangle {
    Triangle::new(
        [
            Vec3::new(0, 0, 1, 2),
            Vec3::new(1, 0, -1, 2),
            Vec3::new(-1, 0, -1, 2),
        ],
        [Vec2::new(0, 1, 1), Vec2::new(1, 0, 1), Vec2::new(0, 0, 1)],
        Vec3::new(0, 1, 0, 1),
    )
}

#[test]
pub fn triangle_intersect_ray() {
    let triangle = test_triangle();
    let ray = (Vec3::new(0, 10, 1, 10), Vec3::new(0, -1, 0, 1));
    assert_eq!(triangle.intersect_ray(&ray), Some(Vec3::new(0, 0, 1, 10)));
}

#[test]
pub fn triangle_intersect_ray_parallel() {
    let triangle = test_triangle();
    let ray = (Vec3::new(0, 10, 1, 10), Vec3::new(1, 0, 0, 1));
    assert_eq!(triangle.intersect_ray(&ray), None);
}

#[test]
pub fn intersect_ray_away() {
    let triangle = test_triangle();
    let ray = (Vec3::new(0, 10, 1, 10), Vec3::new(0, 1, 0, 1));
    assert_eq!(triangle.intersect_ray(&ray), None);
}

#[test]
pub fn intersect_line() {
    let triangle = test_triangle();
    let segment = [Vec3::new(0, 10, 1, 10), Vec3::new(0, -10, -1, 10)];
    assert_eq!(triangle.intersect_segment(&segment), Some(Vec3::zero()));
}

#[test]
pub fn intersect_line_parallel() {
    let triangle = test_triangle();
    let segment = [Vec3::new(0, 10, 1, 10), Vec3::new(10, 10, 1, 10)];
    assert_eq!(triangle.intersect_segment(&segment), None);
}

#[test]
pub fn intersect_line_away() {
    let triangle = test_triangle();
    let segment = [Vec3::new(0, 10, 1, 10), Vec3::new(0, 20, 1, 10)];
    assert_eq!(triangle.intersect_segment(&segment), None);
}

#[test]
fn intersect_triangle() {
    let a = Triangle::from_points([
        Vec3::new(0, 0, 0, 1),
        Vec3::new(2, 0, 0, 1),
        Vec3::new(0, 2, 0, 1),
    ]);
    let b = Triangle::from_points([
        Vec3::new(2, 1, -2, 2),
        Vec3::new(2, 1, 2, 2),
        Vec3::new(2, -4, 2, 2),
    ]);
    assert!(a.intersect_triangle(&b));
    let far = Triangle::from_points([
        Vec3::new(9, 9, 9, 1),
        Vec3::new(10, 9, 9, 1),
        Vec3::new(9, 10, 9, 1),
    ]);
    assert!(!a.intersect_triangle(&far));
}

#[test]
pub fn subdivide() {
    let triangle = Triangle::from_points([
        Vec3::new(-1, 1, 0, 1),
        Vec3::new(-1, -1, 0, 1),
        Vec3::new(1, -1, 0, 1),
    ]);

    let parts = triangle.subdivide();
    let (a, b, c, d) = (parts[0], parts[1], parts[2], parts[3]);

    assert_eq!(
        [a.points[0], a.points[1], a.points[2]],
        [Vec3::new(-1, 1, 0, 1), Vec3::new(-1, 0, 0, 1), Vec3::new(0, 0, 0, 1)]
    );
    assert_eq!(
        [b.points[0], b.points[1], b.points[2]],
        [Vec3::new(-1, 0, 0, 1), Vec3::new(-1, -1, 0, 1), Vec3::new(0, -1, 0, 1)]
    );
    assert_eq!(
        [c.points[0], c.points[1], c.points[2]],
        [Vec3::new(0, 0, 0, 1), Vec3::new(0, -1, 0, 1), Vec3::new(1, -1, 0, 1)]
    );
    assert_eq!(
        [d.points[0], d.points[1], d.points[2]],
        [Vec3::new(-1, 0, 0, 1), Vec3::new(0, -1, 0, 1), Vec3::new(0, 0, 0, 1)]
    );
}

#[test]
pub fn slice() {
    let triangle = Triangle::from_points_uvs(
        [
            Vec3::new(-1, 1, 0, 1),
            Vec3::new(-1, -1, 0, 1),
            Vec3::new(1, -1, 0, 1),
        ],
        [Vec2::new(1, 0, 1), Vec2::new(1, 1, 1), Vec2::new(0, 1, 1)],
    );
    let plane = Plane::new(Vec3::zero(), Vec3::new(1, 0, 0, 1));

    let mut above = Vec::new();
    let mut below = Vec::new();
    triangle.slice(&plane, &mut above, &mut below);

    assert_eq!(above.len() + below.len(), 3);
    let a = above[0];
    let b = below[0];
    let c = below[1];

    assert_eq!(
        [a.points[0], a.points[1], a.points[2]],
        [Vec3::new(0, -1, 0, 1), Vec3::new(1, -1, 0, 1), Vec3::zero()]
    );
    assert_eq!(
        [a.uvs[0], a.uvs[1], a.uvs[2]],
        [Vec2::new(1, 2, 2), Vec2::new(0, 1, 1), Vec2::new(1, 1, 2)]
    );

    assert_eq!(
        [b.points[0], b.points[1], b.points[2]],
        [Vec3::new(-1, 1, 0, 1), Vec3::new(-1, -1, 0, 1), Vec3::new(0, -1, 0, 1)]
    );
    assert_eq!(
        [b.uvs[0], b.uvs[1], b.uvs[2]],
        [Vec2::new(1, 0, 1), Vec2::new(1, 1, 1), Vec2::new(1, 2, 2)]
    );

    assert_eq!(
        [c.points[0], c.points[1], c.points[2]],
        [Vec3::new(-1, 1, 0, 1), Vec3::new(0, -1, 0, 1), Vec3::zero()]
    );
    assert_eq!(
        [c.uvs[0], c.uvs[1], c.uvs[2]],
        [Vec2::new(1, 0, 1), Vec2::new(1, 2, 2), Vec2::new(1, 1, 2)]
    );
}

#[test]
pub fn slice_coplanar_triangle() {
    // A triangle lying wholly in the plane goes whole to the side its
    // normal faces, never to both.
    let triangle = Triangle::from_points([
        Vec3::new(0, 0, 0, 1),
        Vec3::new(2, 0, 0, 1),
        Vec3::new(0, 2, 0, 1),
    ]);
    let facing = Plane::new(Vec3::zero(), Vec3::new(0, 0, 1, 1));
    let mut above = Vec::new();
    let mut below = Vec::new();
    triangle.slice(&facing, &mut above, &mut below);
    assert_eq!(above.len(), 1);
    assert_eq!(below.len(), 0);

    let against = Plane::new(Vec3::zero(), Vec3::new(0, 0, -1, 1));
    let mut above = Vec::new();
    let mut below = Vec::new();
    triangle.slice(&against, &mut above, &mut below);
    assert_eq!(above.len(), 0);
    assert_eq!(below.len(), 1);
}

fn coord(n: i64, d: i64) -> f64 {
    n as f64 / d as f64
}

fn area(t: &Triangle) -> f64 {
    let p0 = [coord(t.points[0].x, t.points[0].d), coord(t.points[0].y, t.points[0].d), coord(
        t.points[0].z,
        t.points[0].d,
    )];
    let p1 = [coord(t.points[1].x, t.points[1].d), coord(t.points[1].y, t.points[1].d), coord(
        t.points[1].z,
        t.points[1].d,
    )];
    let p2 = [coord(t.points[2].x, t.points[2].d), coord(t.points[2].y, t.points[2].d), coord(
        t.points[2].z,
        t.points[2].d,
    )];
    let u = [p1[0] - p0[0], p1[1] - p0[1], p1[2] - p0[2]];
    let w = [p2[0] - p0[0], p2[1] - p0[1], p2[2] - p0[2]];
    let cx = u[1] * w[2] - u[2] * w[1];
    let cy = u[2] * w[0] - u[0] * w[2];
    let cz = u[0] * w[1] - u[1] * w[0];
    (cx * cx + cy * cy + cz * cz).sqrt() / 2.0
}

#[test]
pub fn slice_conserves_area() {
    let triangle = Triangle::from_points_uvs(
        [
            Vec3::new(-1, 1, 0, 1),
            Vec3::new(-1, -1, 0, 1),
            Vec3::new(1, -1, 0, 1),
        ],
        [Vec2::new(1, 0, 1), Vec2::new(1, 1, 1), Vec2::new(0, 1, 1)],
    );
    let planes = [
        Plane::new(Vec3::zero(), Vec3::new(1, 0, 0, 1)),
        Plane::new(Vec3::new(1, 0, 0, 4), Vec3::new(2, 3, 0, 5)),
        Plane::new(Vec3::new(0, 0, 1, 2), Vec3::new(0, 0, 1, 1)),
        // The triangle lies in this plane; routing it to one side keeps
        // the total area intact.
        Plane::new(Vec3::zero(), Vec3::new(0, 0, 1, 1)),
    ];
    for plane in planes.iter() {
        let mut above = Vec::new();
        let mut below = Vec::new();
        triangle.slice(plane, &mut above, &mut below);
        let total: f64 = above.iter().map(area).sum::<f64>() + below.iter().map(area).sum::<f64>();
        let whole = area(&triangle);
        assert!((total - whole).abs() <= 1e-9 * whole.max(1.0));
    }
}
