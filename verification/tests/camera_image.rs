//! The pinhole camera and pixel-buffer conversion.

use pathtracer::fixed::FX_ONE;
use pathtracer::img::{channel_to_raw, pixels_to_raw_rgb};
use pathtracer::math::Vec3;
use pathtracer::renderer::{Camera, CameraOptions};

fn v(x: i64, y: i64, z: i64) -> Vec3 {
    Vec3 { x, y, z }
}

fn options() -> CameraOptions {
    CameraOptions {
        pos: v(0, 0, 0),
        target: v(0, 0, -FX_ONE),
        up: v(0, FX_ONE, 0),
        vert_fov: 55 * FX_ONE,
    }
}

#[test]
fn center_ray_looks_at_target() {
    let cam = Camera::new(&options(), 100, 100);
    let ray = cam.cast_ray(50 * FX_ONE, 50 * FX_ONE);
    assert_eq!(ray.origin, v(0, 0, 0));
    // Looking down negative z, with no sideways lean.
    assert!(ray.dir.z() < -65000, "z component {}", ray.dir.z());
    assert!(ray.dir.x().abs() <= 2048);
    assert!(ray.dir.y().abs() <= 2048);
}

#[test]
fn cast_rays_are_unit_within_tolerance() {
    let cam = Camera::new(&options(), 64, 48);
    for (px, py) in [(0i64, 0i64), (63, 47), (32, 24), (5, 40)] {
        let ray = cam.cast_ray(px * FX_ONE, py * FX_ONE);
        let msq = ray.dir.as_vec3().mag_squared();
        assert!((msq - FX_ONE).abs() <= 1024, "pixel ({px},{py}): {msq}");
    }
}

#[test]
fn image_row_zero_is_up() {
    let cam = Camera::new(&options(), 100, 100);
    let top = cam.cast_ray(50 * FX_ONE, 0);
    let bottom = cam.cast_ray(50 * FX_ONE, 99 * FX_ONE);
    assert!(top.dir.y() > 0, "top row must look up, y = {}", top.dir.y());
    assert!(bottom.dir.y() < 0, "bottom row must look down, y = {}", bottom.dir.y());
}

#[test]
fn horizontal_axis_flips_with_ndc() {
    let cam = Camera::new(&options(), 100, 100);
    let left = cam.cast_ray(0, 50 * FX_ONE);
    let right = cam.cast_ray(99 * FX_ONE, 50 * FX_ONE);
    // The horizontal axis is mirrored (negative ndc_x scales +u).
    assert!(left.dir.x() != right.dir.x());
    assert!(left.dir.x() * right.dir.x() < 0, "x components must straddle the axis");
}

#[test]
fn wider_image_widens_the_horizontal_fov() {
    let square = Camera::new(&options(), 100, 100);
    let wide = Camera::new(&options(), 200, 100);
    let sq_corner = square.cast_ray(0, 50 * FX_ONE);
    let wd_corner = wide.cast_ray(0, 50 * FX_ONE);
    assert!(
        wd_corner.dir.x().abs() > sq_corner.dir.x().abs(),
        "wide {} vs square {}",
        wd_corner.dir.x(),
        sq_corner.dir.x()
    );
}

#[test]
fn channel_conversion_endpoints() {
    assert_eq!(channel_to_raw(0), 0);
    assert_eq!(channel_to_raw(-5 * FX_ONE), 0);
    assert_eq!(channel_to_raw(FX_ONE), 255);
    assert_eq!(channel_to_raw(10 * FX_ONE), 255);
    // 0.5 * 255 = 127.5, truncated.
    assert_eq!(channel_to_raw(FX_ONE / 2), 127);
    // 0.2 * 255 = 51.0 exactly at this resolution: floor(13107*255/65536) = 50.
    assert_eq!(channel_to_raw(13107), 50);
    assert_eq!(channel_to_raw(1), 0);
}

#[test]
fn raw_rgb_flattening() {
    let pixels = vec![
        v(0, FX_ONE / 2, FX_ONE),
        v(2 * FX_ONE, -FX_ONE, 13107),
    ];
    let raw = pixels_to_raw_rgb(&pixels);
    assert_eq!(raw.len(), 6);
    assert_eq!(&raw[..], &[0, 127, 255, 255, 0, 50]);
}

#[test]
fn raw_rgb_of_empty_buffer() {
    let raw = pixels_to_raw_rgb(&[]);
    assert_eq!(raw.len(), 0);
}
