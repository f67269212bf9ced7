//! Scene intersection, the radiance estimator and the render driver.

use pathtracer::fixed::FX_ONE;
use pathtracer::geom::{Geometry, Sphere};
use pathtracer::math::{Ray, Unit3, Vec3};
use pathtracer::renderer::{
    glossy_contribution, glossy_weight, render, render_pixel, render_to, Camera, CameraOptions,
    Material, Primitive, RenderOptions, Scene,
};
use rand::rngs::StdRng;
use rand::SeedableRng;

fn v(x: i64, y: i64, z: i64) -> Vec3 {
    Vec3 { x, y, z }
}

fn ray_down_z() -> Ray {
    Ray {
        origin: v(0, 0, 0),
        dir: Unit3::from_unit_vec3(v(0, 0, -FX_ONE)),
    }
}

fn sphere_prim(center: Vec3, radius: i64, material: Material) -> Primitive {
    Primitive::new(Geometry::Sphere(Sphere::new(center, radius)), material)
}

fn white() -> Vec3 {
    v(FX_ONE, FX_ONE, FX_ONE)
}

fn camera_down_z() -> CameraOptions {
    CameraOptions {
        pos: v(0, 0, 0),
        target: v(0, 0, -FX_ONE),
        up: v(0, FX_ONE, 0),
        vert_fov: 55 * FX_ONE,
    }
}

#[test]
fn closest_hit_picks_nearer_primitive() {
    let near = sphere_prim(v(0, 0, -6 * FX_ONE), FX_ONE, Material::make_diffuse(white()));
    let far = sphere_prim(v(0, 0, -10 * FX_ONE), FX_ONE, Material::make_diffuse(white()));
    let scene = Scene::with_primitives(vec![far, near]);
    let info = scene.intersect(&ray_down_z()).expect("hit");
    assert_eq!(info.prim_idx, 1);
    assert_eq!(info.point, v(0, 0, -5 * FX_ONE));
    assert!(!info.inside);
    assert_eq!((info.normal.x(), info.normal.y(), info.normal.z()), (0, 0, FX_ONE));
}

#[test]
fn closest_hit_tie_goes_to_first_primitive() {
    let a = sphere_prim(v(0, 0, -6 * FX_ONE), FX_ONE, Material::make_diffuse(white()));
    let b = sphere_prim(v(0, 0, -6 * FX_ONE), FX_ONE, Material::make_light(white()));
    let scene = Scene::with_primitives(vec![a, b]);
    let info = scene.intersect(&ray_down_z()).expect("hit");
    assert_eq!(info.prim_idx, 0);
}

#[test]
fn glossy_weight_reproduces_the_lobe_formula() {
    // Flat cone (cosine below epsilon) and degenerate mirror (cosine one)
    // both weigh one.
    assert_eq!(glossy_weight(0), FX_ONE);
    assert_eq!(glossy_weight(15), FX_ONE);
    assert_eq!(glossy_weight(FX_ONE), FX_ONE);
    // cos a = 1/2: 2(1 - 1/2)/(1 - 1/4) = 4/3.
    assert_eq!(glossy_weight(FX_ONE / 2), 87381);
    // cos a = 3/4: 2(1/4)/(7/16) = 8/7 = 1.142857...
    assert_eq!(glossy_weight(3 * FX_ONE / 4), 74898);
}

#[test]
fn intersect_misses_empty_scene() {
    let scene = Scene::new();
    assert!(scene.intersect(&ray_down_z()).is_none());
}

#[test]
fn inside_hit_flips_normal() {
    // The ray starts inside the sphere, so the geometric normal points with
    // the ray and is flipped back.
    let prim = sphere_prim(v(0, 0, 0), FX_ONE, Material::make_diffuse(white()));
    let scene = Scene::with_primitives(vec![prim]);
    let info = scene.intersect(&ray_down_z()).expect("hit");
    assert!(info.inside);
    let d = info.normal.as_vec3().dot(ray_down_z().dir.as_vec3());
    assert!(d <= 0, "normal must face the ray, dot = {d}");
    assert_eq!((info.normal.x(), info.normal.y(), info.normal.z()), (0, 0, FX_ONE));
}

#[test]
fn oriented_normal_never_faces_away() {
    let prims = vec![
        sphere_prim(v(0, 0, -6 * FX_ONE), FX_ONE, Material::make_diffuse(white())),
        sphere_prim(v(FX_ONE / 2, 0, -3 * FX_ONE), FX_ONE, Material::make_diffuse(white())),
        sphere_prim(v(0, 0, 0), 20 * FX_ONE, Material::make_diffuse(white())),
    ];
    let scene = Scene::with_primitives(prims);
    let cam = Camera::new(&camera_down_z(), 32, 32);
    for py in 0i64..32 {
        for px in 0i64..32 {
            let ray = cam.cast_ray(px * FX_ONE, py * FX_ONE);
            if let Some(info) = scene.intersect(&ray) {
                let d = info.normal.as_vec3().dot(ray.dir.as_vec3());
                assert!(d <= 0, "pixel ({px}, {py}): dot = {d}");
            }
        }
    }
}

#[test]
fn trace_at_depth_cutoff_is_zero() {
    let prim = sphere_prim(v(0, 0, -6 * FX_ONE), FX_ONE, Material::make_light(white()));
    let scene = Scene::with_primitives(vec![prim]);
    let mut rng = StdRng::seed_from_u64(7);
    let out = scene.trace_ray(&ray_down_z(), &mut rng, 5, 5);
    assert_eq!(out, v(0, 0, 0));
}

#[test]
fn trace_miss_is_zero() {
    let prim = sphere_prim(v(0, 5 * FX_ONE, -6 * FX_ONE), FX_ONE, Material::make_light(white()));
    let scene = Scene::with_primitives(vec![prim]);
    let mut rng = StdRng::seed_from_u64(7);
    let out = scene.trace_ray(&ray_down_z(), &mut rng, 0, 5);
    assert_eq!(out, v(0, 0, 0));
}

#[test]
fn light_hit_returns_emittance_exactly() {
    let prim = sphere_prim(v(0, 0, -6 * FX_ONE), FX_ONE, Material::make_light(white()));
    let scene = Scene::with_primitives(vec![prim]);
    let mut rng = StdRng::seed_from_u64(7);
    let out = scene.trace_ray(&ray_down_z(), &mut rng, 0, 1);
    assert_eq!(out, white());
}

#[test]
fn dark_scene_traces_to_exact_zero() {
    // Purely diffuse scene with no light source: no radiance from anywhere.
    let prims = vec![
        sphere_prim(v(0, 0, -6 * FX_ONE), FX_ONE, Material::make_diffuse(white())),
        sphere_prim(v(0, 0, 0), 20 * FX_ONE, Material::make_diffuse(v(FX_ONE / 2, 0, 0))),
    ];
    let scene = Scene::with_primitives(prims);
    let mut rng = StdRng::seed_from_u64(123);
    for _ in 0..50 {
        let out = scene.trace_ray(&ray_down_z(), &mut rng, 0, 8);
        assert_eq!(out, v(0, 0, 0));
    }
}

#[test]
fn glossy_scene_yields_nonnegative_radiance() {
    let prims = vec![
        sphere_prim(
            v(0, 0, -6 * FX_ONE),
            FX_ONE,
            Material::make_reflective(v(FX_ONE / 2, FX_ONE / 2, FX_ONE / 2), FX_ONE / 2, 62259),
        ),
        sphere_prim(v(3 * FX_ONE, 3 * FX_ONE, FX_ONE), FX_ONE, Material::make_light(white())),
    ];
    let scene = Scene::with_primitives(prims);
    let mut rng = StdRng::seed_from_u64(99);
    for _ in 0..200 {
        let out = scene.trace_ray(&ray_down_z(), &mut rng, 0, 6);
        assert!(out.x >= 0 && out.y >= 0 && out.z >= 0, "negative radiance {out:?}");
    }
}

#[test]
fn pure_light_render_pixels_are_emittance_or_zero() {
    // A single light sphere straight ahead: every pixel is either exactly
    // the light's color (the ray hit) or exactly zero (it missed).
    let prim = sphere_prim(v(0, 0, -6 * FX_ONE), FX_ONE, Material::make_light(white()));
    let scene = Scene::with_primitives(vec![prim]);
    let opts = RenderOptions {
        camera_options: camera_down_z(),
        width: 17,
        height: 13,
        samples_per_pixel: 1,
        max_depth: 1,
        threads: 0,
    };
    let mut rng = StdRng::seed_from_u64(5);
    let pixels = render(&scene, &opts, &mut rng);
    assert_eq!(pixels.len(), 17 * 13);
    let mut hits = 0;
    for p in &pixels {
        assert!(*p == white() || *p == v(0, 0, 0), "pixel {p:?}");
        if *p == white() {
            hits += 1;
        }
    }
    // The camera points straight at the light, so the central pixel hits.
    assert_eq!(pixels[6 * 17 + 8], white());
    assert!(hits > 0 && hits < 17 * 13);
}

#[test]
fn dark_render_is_all_zero() {
    let prims = vec![sphere_prim(v(0, 0, -6 * FX_ONE), FX_ONE, Material::make_diffuse(white()))];
    let scene = Scene::with_primitives(prims);
    let opts = RenderOptions {
        camera_options: camera_down_z(),
        width: 9,
        height: 9,
        samples_per_pixel: 4,
        max_depth: 4,
        threads: 0,
    };
    let mut rng = StdRng::seed_from_u64(5);
    let pixels = render(&scene, &opts, &mut rng);
    assert_eq!(pixels.len(), 81);
    for p in &pixels {
        assert_eq!(*p, v(0, 0, 0));
    }
}

#[test]
fn render_buffer_has_expected_length_and_no_negatives() {
    let prims = vec![
        sphere_prim(v(0, 0, -6 * FX_ONE), FX_ONE, Material::make_diffuse(white())),
        sphere_prim(v(2 * FX_ONE, 2 * FX_ONE, -4 * FX_ONE), FX_ONE, Material::make_light(white())),
    ];
    let scene = Scene::with_primitives(prims);
    let opts = RenderOptions {
        camera_options: camera_down_z(),
        width: 11,
        height: 7,
        samples_per_pixel: 2,
        max_depth: 3,
        threads: 0,
    };
    let mut rng = StdRng::seed_from_u64(42);
    let pixels = render(&scene, &opts, &mut rng);
    assert_eq!(pixels.len(), 11 * 7);
    for p in &pixels {
        assert!(p.x >= 0 && p.y >= 0 && p.z >= 0);
    }
}

#[test]
fn render_to_fills_existing_buffer() {
    let prim = sphere_prim(v(0, 0, -6 * FX_ONE), FX_ONE, Material::make_light(white()));
    let scene = Scene::with_primitives(vec![prim]);
    let opts = RenderOptions {
        camera_options: camera_down_z(),
        width: 5,
        height: 5,
        samples_per_pixel: 1,
        max_depth: 1,
        threads: 0,
    };
    let mut pixels = vec![v(-1, -1, -1); 25];
    let mut rng = StdRng::seed_from_u64(1);
    render_to(&scene, &mut pixels, &opts, &mut rng);
    assert_eq!(pixels.len(), 25);
    for p in &pixels {
        assert!(p.x >= 0 && p.y >= 0 && p.z >= 0);
    }
    // The center of the image looks straight at the light.
    assert_eq!(pixels[2 * 5 + 2], white());
}

#[test]
fn enclosing_light_renders_every_pixel_exactly() {
    // The camera sits inside a huge light sphere: every jittered ray of
    // every pixel hits it, so each pixel is exactly the emittance.
    let prim = sphere_prim(v(0, 0, 0), 50 * FX_ONE, Material::make_light(white()));
    let scene = Scene::with_primitives(vec![prim]);
    let opts = RenderOptions {
        camera_options: camera_down_z(),
        width: 7,
        height: 5,
        samples_per_pixel: 3,
        max_depth: 2,
        threads: 0,
    };
    let mut rng = StdRng::seed_from_u64(404);
    let pixels = render(&scene, &opts, &mut rng);
    assert_eq!(pixels.len(), 35);
    for p in &pixels {
        assert_eq!(*p, white());
    }
}

#[test]
fn empty_scene_renders_black() {
    // Every jittered ray of every pixel misses: exactly zero everywhere.
    let scene = Scene::new();
    let opts = RenderOptions {
        camera_options: camera_down_z(),
        width: 6,
        height: 4,
        samples_per_pixel: 2,
        max_depth: 3,
        threads: 0,
    };
    let mut rng = StdRng::seed_from_u64(9);
    let pixels = render(&scene, &opts, &mut rng);
    assert_eq!(pixels.len(), 24);
    for p in &pixels {
        assert_eq!(*p, v(0, 0, 0));
    }
}

#[test]
fn glossy_contribution_values() {
    // A negative cosine contributes nothing, whatever came in.
    let r = glossy_contribution(FX_ONE / 2, -100, white());
    assert_eq!(r, v(0, 0, 0));
    // Otherwise the incoming radiance is scaled by weight * cos theta:
    // weight(1/2) = 4/3, cos theta = 1/2, scale = 2/3.
    let r = glossy_contribution(FX_ONE / 2, FX_ONE / 2, white());
    let scale = 43690;
    assert_eq!(r, v(scale, scale, scale));
}

#[test]
fn render_pixel_averages_to_emittance_on_sure_hits() {
    // A huge light sphere surrounds the camera: every sample hits, so the
    // average over samples is exactly the emittance.
    let prim = sphere_prim(v(0, 0, 0), 50 * FX_ONE, Material::make_light(white()));
    let scene = Scene::with_primitives(vec![prim]);
    let cam = Camera::new(&camera_down_z(), 8, 8);
    let mut rng = StdRng::seed_from_u64(11);
    let px = render_pixel(&scene, &cam, 3, 4, 16, 1, &mut rng);
    assert_eq!(px, white());
}

#[test]
fn scene_add_and_accessors() {
    let mut scene = Scene::new();
    assert_eq!(scene.primitives().len(), 0);
    scene.add_primitive(sphere_prim(v(0, 0, -6 * FX_ONE), FX_ONE, Material::make_light(white())));
    assert_eq!(scene.primitives().len(), 1);
    let p = &scene.primitives()[0];
    assert_eq!(p.material().emittance, white());
    match p.geom() {
        Geometry::Sphere(s) => assert_eq!(s.radius(), FX_ONE),
    }
}
