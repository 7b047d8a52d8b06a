use meshellaneous::plane::Plane;
use meshellaneous::side::Side;
use meshellaneous::vector::Vec3;

fn unit_y_plane() -> Plane {
    Plane::new(Vec3::zero(), Vec3::new(0, 1, 0, 1))
}

#[test]
pub fn side_above() {
    let plane = unit_y_plane();
    let side = plane.side(Vec3::new(0, 1, 0, 1));
    assert_eq!(side, Side::Above);
}

#[test]
pub fn side_below() {
    let plane = unit_y_plane();
    let side = plane.side(Vec3::new(0, -1, 0, 1));
    assert_eq!(side, Side::Below);
}

#[test]
pub fn side_coplanar() {
    let plane = unit_y_plane();
    let side = plane.side(Vec3::new(1, 0, 0, 1));
    assert_eq!(side, Side::Coplanar);
}

#[test]
pub fn side_tolerance_boundary() {
    // The offset 1 / 8388608 is exactly the tolerance: still coplanar.
    let plane = unit_y_plane();
    assert_eq!(plane.side(Vec3::new(0, 1, 0, 8388608)), Side::Coplanar);
    // One step beyond the tolerance classifies strictly.
    assert_eq!(plane.side(Vec3::new(0, 2, 0, 8388608)), Side::Above);
    assert_eq!(plane.side(Vec3::new(0, -2, 0, 8388608)), Side::Below);
}

#[test]
pub fn plane_intersect_ray() {
    let plane = unit_y_plane();
    let ray = (Vec3::new(0, 10, 1, 10), Vec3::new(0, -1, 0, 1));
    assert_eq!(plane.intersect_ray(&ray), Some(Vec3::new(0, 0, 1, 10)));
}

#[test]
pub fn plane_intersect_ray_parallel() {
    let plane = unit_y_plane();
    let ray = (Vec3::new(0, 10, 1, 10), Vec3::new(1, 0, 0, 1));
    assert_eq!(plane.intersect_ray(&ray), None);
}

#[test]
pub fn intersect_segment() {
    let plane = unit_y_plane();
    let segment = [Vec3::new(0, 10, 1, 10), Vec3::new(0, -10, -1, 10)];
    assert_eq!(plane.intersect_segment(&segment), Some(Vec3::zero()));
}

#[test]
pub fn intersect_segment_parallel() {
    let plane = unit_y_plane();
    let segment = [Vec3::new(0, 10, 1, 10), Vec3::new(10, 10, 1, 10)];
    assert_eq!(plane.intersect_segment(&segment), None);
}

#[test]
pub fn intersect_segment_away() {
    let plane = unit_y_plane();
    let segment = [Vec3::new(0, 10, 1, 10), Vec3::new(0, 20, 1, 10)];
    assert_eq!(plane.intersect_segment(&segment), None);
}

#[test]
pub fn intersect_segment_swapped_endpoints() {
    // Swapping the endpoints changes the parametrisation, not the point.
    let plane = unit_y_plane();
    let a = Vec3::new(0, 10, 1, 10);
    let b = Vec3::new(0, -10, -1, 10);
    let hit = plane.intersect_segment(&[a, b]);
    let swapped = plane.intersect_segment(&[b, a]);
    assert_eq!(hit, Some(Vec3::zero()));
    assert_eq!(hit, swapped);
}
