//! Sphere intersection and surface normals.

use pathtracer::fixed::FX_ONE;
use pathtracer::geom::{Geometry, Sphere};
use pathtracer::math::{Ray, Unit3, Vec3};

fn v(x: i64, y: i64, z: i64) -> Vec3 {
    Vec3 { x, y, z }
}

fn ray_down_z() -> Ray {
    Ray {
        origin: v(0, 0, 0),
        dir: Unit3::from_unit_vec3(v(0, 0, -FX_ONE)),
    }
}

#[test]
fn head_on_hit_returns_near_distance() {
    // Sphere 6 units down the axis, radius 1: the hit is at 6 - 1 = 5.
    let sph = Sphere::new(v(0, 0, -6 * FX_ONE), FX_ONE);
    assert_eq!(sph.intersect(&ray_down_z()), Some(5 * FX_ONE));
}

#[test]
fn head_on_hit_various_radii() {
    let sph = Sphere::new(v(0, 0, -8 * FX_ONE), 2 * FX_ONE);
    assert_eq!(sph.intersect(&ray_down_z()), Some(6 * FX_ONE));
    let sph = Sphere::new(v(0, 0, -8 * FX_ONE), FX_ONE / 2);
    assert_eq!(sph.intersect(&ray_down_z()), Some(15 * FX_ONE / 2));
}

#[test]
fn origin_inside_returns_far_root() {
    // Sphere centered at the origin: the near root is behind the ray, the
    // far root is at the radius.
    let sph = Sphere::new(v(0, 0, 0), FX_ONE);
    assert_eq!(sph.intersect(&ray_down_z()), Some(FX_ONE));
}

#[test]
fn miss_when_closest_approach_exceeds_radius() {
    // Closest approach 3 to a radius-1 sphere.
    let sph = Sphere::new(v(0, 3 * FX_ONE, -6 * FX_ONE), FX_ONE);
    assert_eq!(sph.intersect(&ray_down_z()), None);
}

#[test]
fn miss_when_sphere_is_behind() {
    let sph = Sphere::new(v(0, 0, 6 * FX_ONE), FX_ONE);
    assert_eq!(sph.intersect(&ray_down_z()), None);
}

#[test]
fn tangent_distance_guard_rejects_graze_at_origin() {
    // A sphere touching the origin: both roots are at or below the epsilon
    // threshold on the near side.
    let sph = Sphere::new(v(0, 0, FX_ONE), FX_ONE);
    assert_eq!(sph.intersect(&ray_down_z()), None);
}

#[test]
fn normal_at_axis_point_is_exact() {
    let sph = Sphere::new(v(0, 0, -6 * FX_ONE), FX_ONE);
    let n = sph.normal_at(v(0, 0, -5 * FX_ONE));
    assert_eq!((n.x(), n.y(), n.z()), (0, 0, FX_ONE));
}

#[test]
fn normal_at_is_unit_within_tolerance() {
    let sph = Sphere::new(v(0, 0, -6 * FX_ONE), FX_ONE);
    // A point near (0.6, 0.8, 0) + center, nominally on the sphere.
    let p = v(39322, 52429, -6 * FX_ONE);
    let msq = sph.normal_at(p).as_vec3().mag_squared();
    assert!((msq - FX_ONE).abs() <= 1024, "normal squared magnitude {msq}");
}

#[test]
fn geometry_enum_dispatches_to_sphere() {
    let sph = Sphere::new(v(0, 0, -6 * FX_ONE), FX_ONE);
    let g = Geometry::Sphere(sph);
    assert_eq!(g.intersect(&ray_down_z()), Some(5 * FX_ONE));
    let n = g.normal_at(v(0, 0, -5 * FX_ONE));
    assert_eq!((n.x(), n.y(), n.z()), (0, 0, FX_ONE));
}

#[test]
fn sphere_accessors() {
    let sph = Sphere::new(v(FX_ONE, 2 * FX_ONE, 3 * FX_ONE), 4 * FX_ONE);
    assert_eq!(sph.center(), v(FX_ONE, 2 * FX_ONE, 3 * FX_ONE));
    assert_eq!(sph.radius(), 4 * FX_ONE);
}
