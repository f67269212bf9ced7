//! Frames and importance samplers.

use pathtracer::fixed::{fx_mul, FX_ONE};
use pathtracer::math::{Unit3, Vec3};
use pathtracer::rng::{next_angle, next_unit};
use pathtracer::sample::{sample_cos_weighted_hemisphere, sample_uniform_cone, Basis};
use pathtracer::trig::FX_PI;
use rand::rngs::StdRng;
use rand::SeedableRng;

fn v(x: i64, y: i64, z: i64) -> Vec3 {
    Vec3 { x, y, z }
}

fn unit_z() -> Unit3 {
    Unit3::from_unit_vec3(v(0, 0, FX_ONE))
}

#[test]
fn frame_of_canonical_normal_is_exact() {
    let b = Basis::from_normal(unit_z());
    assert_eq!(b.x, v(0, -FX_ONE, 0));
    assert_eq!(b.y, v(FX_ONE, 0, 0));
    assert_eq!(b.z, v(0, 0, FX_ONE));
}

#[test]
fn frame_helper_axis_switches_on_leaning_normal() {
    // A normal along x leans past the threshold, so the helper axis is
    // world y and the frame stays well-conditioned.
    let b = Basis::from_normal(Unit3::from_unit_vec3(v(FX_ONE, 0, 0)));
    assert_eq!(b.z, v(FX_ONE, 0, 0));
    // The tangent axes are orthogonal to the normal (exactly, here).
    assert_eq!(b.x.dot(b.z), 0);
    assert_eq!(b.y.dot(b.z), 0);
}

#[test]
fn degenerate_cone_returns_axis_exactly() {
    let axis = unit_z();
    for (u, phi) in [(0i64, 0i64), (1, 77), (32768, 100000), (65535, 402123)] {
        let d = sample_uniform_cone(axis, 0, u, phi);
        assert_eq!((d.x(), d.y(), d.z()), (0, 0, FX_ONE), "u={u}, phi={phi}");
    }
    // The same holds around a different exactly-unit axis.
    let axis_x = Unit3::from_unit_vec3(v(-FX_ONE, 0, 0));
    let d = sample_uniform_cone(axis_x, 0, 40000, 250000);
    assert_eq!((d.x(), d.y(), d.z()), (-FX_ONE, 0, 0));
}

#[test]
fn full_sphere_cone_sign_follows_first_variate() {
    // With half-angle pi the local height is 1 - 2u: draws below one half
    // land in the upper hemisphere, draws above it in the lower one (or,
    // degenerately, renormalize to the axis).
    let axis = unit_z();
    for u in [0i64, 1000, 20000, 32768] {
        let d = sample_uniform_cone(axis, FX_PI, u, 123456);
        assert!(d.z() >= 0, "u = {u}: z = {}", d.z());
    }
    for u in [32768i64, 45000, 60000, 65535] {
        let d = sample_uniform_cone(axis, FX_PI, u, 123456);
        let is_axis = d.x() == 0 && d.y() == 0 && d.z() == FX_ONE;
        assert!(d.z() <= 0 || is_axis, "u = {u}: z = {}", d.z());
    }
}

#[test]
fn full_sphere_cone_covers_both_hemispheres() {
    // With a half-angle of pi the cone is the whole sphere: samples land on
    // both sides of the plane through the axis.
    let axis = unit_z();
    let mut rng = StdRng::seed_from_u64(2024);
    let mut above = 0;
    let mut below = 0;
    for _ in 0..2000 {
        let d = sample_uniform_cone(axis, FX_PI, next_unit(&mut rng), next_angle(&mut rng));
        if d.z() > 0 {
            above += 1;
        }
        if d.z() < 0 {
            below += 1;
        }
    }
    assert!(above > 400, "only {above} samples above");
    assert!(below > 400, "only {below} samples below");
}

#[test]
fn hemisphere_samples_never_point_below() {
    let normal = unit_z();
    let mut rng = StdRng::seed_from_u64(31337);
    for _ in 0..5000 {
        let d = sample_cos_weighted_hemisphere(normal, next_unit(&mut rng), next_angle(&mut rng));
        assert!(d.z() >= 0, "sample below the plane: {:?}", (d.x(), d.y(), d.z()));
    }
}

#[test]
fn hemisphere_samples_are_unit_within_tolerance() {
    let normal = unit_z();
    let mut rng = StdRng::seed_from_u64(4);
    for _ in 0..2000 {
        let d = sample_cos_weighted_hemisphere(normal, next_unit(&mut rng), next_angle(&mut rng));
        let msq = d.as_vec3().mag_squared();
        assert!((msq - FX_ONE).abs() <= 1024, "squared magnitude {msq}");
    }
}

#[test]
fn hemisphere_mean_cosine_approaches_two_thirds() {
    // Cosine-weighted sampling has E[cos theta] = 2/3 relative to the
    // normal; with many draws the sample mean comes close.
    let normal = unit_z();
    let mut rng = StdRng::seed_from_u64(271828);
    let n = 40000i64;
    let mut sum: i64 = 0;
    for _ in 0..n {
        let d = sample_cos_weighted_hemisphere(normal, next_unit(&mut rng), next_angle(&mut rng));
        sum += d.z();
    }
    let mean = sum / n;
    let two_thirds = 2 * FX_ONE / 3;
    assert!(
        (mean - two_thirds).abs() < FX_ONE / 50,
        "mean cosine {mean}, expected about {two_thirds}"
    );
}

#[test]
fn cone_samples_stay_near_axis_for_narrow_angle() {
    // A narrow cone (about 0.1 rad) keeps the sampled cosine close to one.
    let axis = unit_z();
    let mut rng = StdRng::seed_from_u64(5150);
    for _ in 0..2000 {
        let d = sample_uniform_cone(axis, 6554, next_unit(&mut rng), next_angle(&mut rng));
        assert!(d.z() > 64870, "cosine with axis {}", d.z());
    }
}

#[test]
fn samplers_are_deterministic_in_their_variates() {
    let normal = unit_z();
    let a = sample_cos_weighted_hemisphere(normal, 12345, 200000);
    let b = sample_cos_weighted_hemisphere(normal, 12345, 200000);
    assert_eq!((a.x(), a.y(), a.z()), (b.x(), b.y(), b.z()));
    let c = sample_uniform_cone(normal, 5000, 12345, 200000);
    let d = sample_uniform_cone(normal, 5000, 12345, 200000);
    assert_eq!((c.x(), c.y(), c.z()), (d.x(), d.y(), d.z()));
}

#[test]
fn fx_mul_links_variate_to_angle_range() {
    // next_angle scales a unit variate by 2*pi; spot-check the scaling.
    assert_eq!(fx_mul(0, pathtracer::trig::FX_TWO_PI), 0);
    assert!(fx_mul(65535, pathtracer::trig::FX_TWO_PI) < pathtracer::trig::FX_TWO_PI);
}
