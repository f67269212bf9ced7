//! Vector algebra, unit vectors and rays.

use pathtracer::fixed::FX_ONE;
use pathtracer::math::{nearly_equal, normalize, Ray, Unit3, Vec3};

fn v(x: i64, y: i64, z: i64) -> Vec3 {
    Vec3 { x, y, z }
}

#[test]
fn componentwise_ops() {
    let a = v(FX_ONE, 2 * FX_ONE, -3 * FX_ONE);
    let b = v(4 * FX_ONE, -5 * FX_ONE, 6 * FX_ONE);
    assert_eq!(a.add(b), v(5 * FX_ONE, -3 * FX_ONE, 3 * FX_ONE));
    assert_eq!(a.sub(b), v(-3 * FX_ONE, 7 * FX_ONE, -9 * FX_ONE));
    assert_eq!(a.neg(), v(-FX_ONE, -2 * FX_ONE, 3 * FX_ONE));
    assert_eq!(a.mul(2 * FX_ONE), v(2 * FX_ONE, 4 * FX_ONE, -6 * FX_ONE));
    assert_eq!(a.div(2 * FX_ONE), v(FX_ONE / 2, FX_ONE, -3 * FX_ONE / 2));
    assert_eq!(a.component_mul(b), v(4 * FX_ONE, -10 * FX_ONE, -18 * FX_ONE));
}

#[test]
fn dot_and_magnitude() {
    let a = v(FX_ONE, 2 * FX_ONE, -3 * FX_ONE);
    let b = v(4 * FX_ONE, -5 * FX_ONE, 6 * FX_ONE);
    // 1*4 - 2*5 - 3*6 = -24.
    assert_eq!(a.dot(b), -24 * FX_ONE);
    // 9 + 16 = 25, sqrt = 5.
    let p = v(3 * FX_ONE, 4 * FX_ONE, 0);
    assert_eq!(p.mag_squared(), 25 * FX_ONE);
    assert_eq!(p.mag(), 5 * FX_ONE);
}

#[test]
fn cross_products() {
    let x = v(FX_ONE, 0, 0);
    let y = v(0, FX_ONE, 0);
    let z = v(0, 0, FX_ONE);
    assert_eq!(x.cross(y), z);
    assert_eq!(y.cross(z), x);
    assert_eq!(z.cross(x), y);
    assert_eq!(y.cross(x), z.neg());
}

#[test]
fn to_unit_of_exact_triple() {
    // (3, 4, 0) / 5 = (0.6, 0.8, 0).
    let u = v(3 * FX_ONE, 4 * FX_ONE, 0).to_unit();
    assert_eq!(u.x(), 3 * FX_ONE / 5);
    assert_eq!(u.y(), 4 * FX_ONE / 5);
    assert_eq!(u.z(), 0);
}

#[test]
fn to_unit_magnitude_within_tolerance() {
    // Normalized vectors have squared magnitude within 1/64 of one.
    let samples = [
        v(FX_ONE, FX_ONE, FX_ONE),
        v(30000, 40000, 10000),
        v(-123456, 654321, 42),
        v(1000 * FX_ONE, -2000 * FX_ONE, 3000 * FX_ONE),
        v(99999, -1, 7),
    ];
    for s in samples {
        let msq = s.to_unit().as_vec3().mag_squared();
        assert!(
            (msq - FX_ONE).abs() <= 1024,
            "normalize({s:?}) has squared magnitude {msq}"
        );
    }
}

#[test]
fn normalize_degenerate_falls_back_to_z() {
    let u = normalize(v(0, 0, 0));
    assert_eq!((u.x(), u.y(), u.z()), (0, 0, FX_ONE));
}

#[test]
fn unit_flip_negates_exactly() {
    let u = v(3 * FX_ONE, 4 * FX_ONE, 0).to_unit();
    let f = Unit3::flip(u);
    assert_eq!(f.x(), -u.x());
    assert_eq!(f.y(), -u.y());
    assert_eq!(f.z(), -u.z());
}

#[test]
fn from_unit_vec3_keeps_vector() {
    let u = Unit3::from_unit_vec3(v(0, 0, -FX_ONE));
    assert_eq!((u.x(), u.y(), u.z()), (0, 0, -FX_ONE));
}

#[test]
fn ray_interp_walks_the_direction() {
    let ray = Ray {
        origin: v(FX_ONE, 0, 0),
        dir: Unit3::from_unit_vec3(v(0, 0, -FX_ONE)),
    };
    assert_eq!(ray.interp(3 * FX_ONE), v(FX_ONE, 0, -3 * FX_ONE));
    assert_eq!(ray.interp(0), v(FX_ONE, 0, 0));
}

#[test]
fn nearly_equal_relative() {
    assert!(nearly_equal(FX_ONE, FX_ONE + 1));
    assert!(!nearly_equal(FX_ONE, 2 * FX_ONE));
    // Mirrors the reference comparison: zero tolerance around zero.
    assert!(!nearly_equal(0, 0));
}
