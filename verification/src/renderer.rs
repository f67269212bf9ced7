//! The scene model and the camera.
//!
//! A scene is an ordered list of primitives, each one geometry plus one
//! material; the camera turns pixel coordinates into world-space view rays
//! under a vertical-field-of-view pinhole projection.

use vstd::prelude::*;

use crate::fixed::{fx_div, fx_divi, fx_mul, fx_neg, fx_sub};
use crate::fixed::{
    spec_fx_div, spec_fx_divi, spec_fx_mul, spec_fx_neg, spec_fx_sub, FX_ONE,
};
use crate::geom::{spec_geom_intersect, spec_geom_normal_at, Geometry};
use crate::math::{
    spec_v3_add, spec_v3_cross, spec_v3_dot, spec_v3_magsq, spec_v3_mul, spec_v3_neg,
    spec_v3_nonneg, spec_v3_normalize, spec_v3_sub, spec_ray_interp,
};
use crate::math::{normalize, Ray, SpecVec3, Unit3, Vec3, EPSILON};
use crate::trig::{fx_cos, fx_sin, spec_fx_cos, spec_fx_sin, FX_PI};

verus! {

/// Camera placement: eye position, look target, up hint and the vertical
/// field of view in fixed-point degrees.
#[derive(Debug, Clone, Copy, PartialEq, Eq, Structural)]
pub struct CameraOptions {
    pub pos: Vec3,
    pub target: Vec3,
    pub up: Vec3,
    pub vert_fov: i64,
}

/// Everything a render run needs besides the scene.
#[derive(Debug, Clone, Copy, PartialEq, Eq, Structural)]
pub struct RenderOptions {
    pub camera_options: CameraOptions,
    pub width: u32,
    pub height: u32,
    pub samples_per_pixel: u32,
    pub max_depth: u32,
    pub threads: u32,
}

/// The mathematical value of a `Camera`.
pub ghost struct SpecCamera {
    pub pos: SpecVec3,
    pub u: SpecVec3,
    pub v: SpecVec3,
    pub n_with_plane_dist: SpecVec3,
    pub aspect_ratio: int,
    pub inv_width: int,
    pub inv_height: int,
}

/// Per-render immutable camera state: an orthonormal-by-construction basis
/// and precomputed reciprocal image dimensions.
#[derive(Debug, Clone, Copy, PartialEq, Eq, Structural)]
pub struct Camera {
    pos: Vec3,
    u: Unit3,
    v: Unit3,
    n_with_plane_dist: Vec3,
    aspect_ratio: i64,
    inv_width: i64,
    inv_height: i64,
}

impl View for Camera {
    type V = SpecCamera;

    closed spec fn view(&self) -> SpecCamera {
        SpecCamera {
            pos: self.pos@,
            u: self.u@,
            v: self.v@,
            n_with_plane_dist: self.n_with_plane_dist@,
            aspect_ratio: self.aspect_ratio as int,
            inv_width: self.inv_width as int,
            inv_height: self.inv_height as int,
        }
    }
}

/// The forward axis the camera looks along.
pub open spec fn spec_camera_forward(options: CameraOptions) -> SpecVec3 {
    spec_v3_normalize(spec_v3_sub(options.target@, options.pos@))
}

/// The right axis, seeded from the up hint.
pub open spec fn spec_camera_right(options: CameraOptions) -> SpecVec3 {
    spec_v3_normalize(spec_v3_cross(options.up@, spec_camera_forward(options)))
}

/// A camera configuration is degenerate (a fatal setup error) when the look
/// target coincides with the eye or the up hint is collinear with the view
/// direction; both make a basis vector vanish.
pub open spec fn spec_camera_nondegenerate(options: CameraOptions) -> bool {
    &&& spec_v3_magsq(spec_v3_sub(options.target@, options.pos@)) >= 1
    &&& spec_v3_magsq(spec_v3_cross(options.up@, spec_camera_forward(options))) >= 1
}

/// Half the vertical field of view, in fixed-point radians.
pub open spec fn spec_camera_half_fov(options: CameraOptions) -> int {
    spec_fx_divi(spec_fx_mul(options.vert_fov as int, FX_PI as int), 360)
}

/// The camera state computed from its options and the image dimensions.
pub open spec fn spec_camera_new(options: CameraOptions, width: u32, height: u32) -> SpecCamera {
    let n = spec_camera_forward(options);
    let u = spec_camera_right(options);
    let v = spec_v3_normalize(spec_v3_cross(n, u));
    let half = spec_camera_half_fov(options);
    let plane_dist = spec_fx_div(spec_fx_cos(half), spec_fx_sin(half));
    let fwidth = width * (FX_ONE as int);
    let fheight = height * (FX_ONE as int);
    SpecCamera {
        pos: options.pos@,
        u: u,
        v: v,
        n_with_plane_dist: spec_v3_mul(n, plane_dist),
        aspect_ratio: spec_fx_div(fwidth, fheight),
        inv_width: spec_fx_div(FX_ONE as int, fwidth),
        inv_height: spec_fx_div(FX_ONE as int, fheight),
    }
}

/// The direction of the view ray through pixel coordinates `(px, py)`:
/// normalized device coordinates in `[-1, 1]` (row 0 up), horizontal axis
/// scaled by the aspect ratio, combined with the image-plane distance and
/// normalized.
pub open spec fn spec_cast_dir(cam: SpecCamera, px: int, py: int) -> SpecVec3 {
    let ndc_x = spec_fx_sub(spec_fx_mul(2 * FX_ONE as int, spec_fx_mul(px, cam.inv_width)), FX_ONE as int);
    let ndc_y = spec_fx_sub(spec_fx_mul(2 * FX_ONE as int, spec_fx_mul(py, cam.inv_height)), FX_ONE as int);
    spec_v3_normalize(
        spec_v3_add(
            spec_v3_sub(
                spec_v3_mul(cam.u, spec_fx_neg(spec_fx_mul(ndc_x, cam.aspect_ratio))),
                spec_v3_mul(cam.v, ndc_y),
            ),
            cam.n_with_plane_dist,
        ),
    )
}

impl Camera {
    /// Derive the camera state; degenerate configurations and out-of-range
    /// image dimensions or fields of view are fatal configuration errors,
    /// ruled out here.
    pub fn new(options: &CameraOptions, width: u32, height: u32) -> (r: Camera)
        requires
            spec_camera_nondegenerate(*options),
            FX_ONE <= options.vert_fov <= 179 * FX_ONE,
            1 <= width <= 16384,
            1 <= height <= 16384,
        ensures
            r@ == spec_camera_new(*options, width, height),
    {
        let n = options.target.sub(options.pos).to_unit();
        let u = options.up.cross(n.as_vec3()).to_unit();
        let v = normalize(n.as_vec3().cross(u.as_vec3()));

        // cot(vert_fov / 2), the eye-to-image-plane distance.
        let half = fx_divi(fx_mul(options.vert_fov, FX_PI), 360);
        let plane_dist = fx_div(fx_cos(half), fx_sin(half));

        let fwidth = (width as i64) * FX_ONE;
        let fheight = (height as i64) * FX_ONE;

        Camera {
            pos: options.pos,
            u,
            v,
            n_with_plane_dist: n.as_vec3().mul(plane_dist),
            aspect_ratio: fx_div(fwidth, fheight),
            inv_width: fx_div(FX_ONE, fwidth),
            inv_height: fx_div(FX_ONE, fheight),
        }
    }

    /// The view ray through (possibly jittered) pixel coordinates, given in
    /// fixed point.
    pub fn cast_ray(&self, pixel_x: i64, pixel_y: i64) -> (r: Ray)
        ensures
            r.origin@ == self@.pos,
            r.dir@ == spec_cast_dir(self@, pixel_x as int, pixel_y as int),
    {
        // Map to [-1, 1].
        let ndc_x = fx_sub(fx_mul(2 * FX_ONE, fx_mul(pixel_x, self.inv_width)), FX_ONE);
        let ndc_y = fx_sub(fx_mul(2 * FX_ONE, fx_mul(pixel_y, self.inv_height)), FX_ONE);

        let dir = normalize(
            self.u.as_vec3().mul(fx_neg(fx_mul(ndc_x, self.aspect_ratio)))
                .sub(self.v.as_vec3().mul(ndc_y))
                .add(self.n_with_plane_dist),
        );

        Ray { origin: self.pos, dir }
    }
}

/// The mathematical value of a `Material`.
pub ghost struct SpecMaterial {
    pub emittance: SpecVec3,
    pub albedo: SpecVec3,
    pub reflectance: int,
    pub gloss: int,
}

/// A surface response: emitted radiance, diffuse reflectance color, the
/// probability that a bounce reflects specularly, and the gloss (1 is a
/// perfect mirror) that sets the width of the specular lobe.
#[derive(Debug, Clone, Copy, PartialEq, Eq, Structural)]
pub struct Material {
    pub emittance: Vec3,
    pub albedo: Vec3,
    pub reflectance: i64,
    pub gloss: i64,
}

impl View for Material {
    type V = SpecMaterial;

    open spec fn view(&self) -> SpecMaterial {
        SpecMaterial {
            emittance: self.emittance@,
            albedo: self.albedo@,
            reflectance: self.reflectance as int,
            gloss: self.gloss as int,
        }
    }
}

/// A well-formed material: emittance components in `[0, FX_MAX]` (the
/// representable range), albedo components in `[0, 1]`, reflectance and
/// gloss in `[0, 1]`.
pub open spec fn spec_material_wf(m: SpecMaterial) -> bool {
    &&& 0 <= m.emittance.x <= crate::fixed::FX_MAX
    &&& 0 <= m.emittance.y <= crate::fixed::FX_MAX
    &&& 0 <= m.emittance.z <= crate::fixed::FX_MAX
    &&& 0 <= m.albedo.x <= FX_ONE && 0 <= m.albedo.y <= FX_ONE && 0 <= m.albedo.z <= FX_ONE
    &&& 0 <= m.reflectance <= FX_ONE
    &&& 0 <= m.gloss <= FX_ONE
}

impl Material {
    /// A pure light source: it emits `color` and reflects nothing.
    pub fn make_light(color: Vec3) -> (r: Material)
        requires
            0 <= color@.x <= crate::fixed::FX_MAX,
            0 <= color@.y <= crate::fixed::FX_MAX,
            0 <= color@.z <= crate::fixed::FX_MAX,
        ensures
            r@.emittance == color@,
            r@.albedo == crate::math::spec_v3_zero(),
            r@.reflectance == 0,
            r@.gloss == 0,
            spec_material_wf(r@),
    {
        Material { emittance: color, albedo: Vec3::default(), reflectance: 0, gloss: 0 }
    }

    /// A purely diffuse surface with the given albedo.
    pub fn make_diffuse(color: Vec3) -> (r: Material)
        requires
            0 <= color@.x <= FX_ONE && 0 <= color@.y <= FX_ONE && 0 <= color@.z <= FX_ONE,
        ensures
            r@.emittance == crate::math::spec_v3_zero(),
            r@.albedo == color@,
            r@.reflectance == 0,
            r@.gloss == 0,
            spec_material_wf(r@),
    {
        Material { emittance: Vec3::default(), albedo: color, reflectance: 0, gloss: 0 }
    }

    /// A glossy surface: with probability `reflectance` a bounce reflects
    /// specularly, otherwise it scatters diffusely off `color`.
    pub fn make_reflective(color: Vec3, reflectance: i64, gloss: i64) -> (r: Material)
        requires
            0 <= color@.x <= FX_ONE && 0 <= color@.y <= FX_ONE && 0 <= color@.z <= FX_ONE,
            0 <= reflectance <= FX_ONE,
            0 <= gloss <= FX_ONE,
        ensures
            r@.emittance == crate::math::spec_v3_zero(),
            r@.albedo == color@,
            r@.reflectance == reflectance as int,
            r@.gloss == gloss as int,
            spec_material_wf(r@),
    {
        Material { emittance: Vec3::default(), albedo: color, reflectance, gloss }
    }
}

/// The mathematical value of a `Primitive`.
pub ghost struct SpecPrimitive {
    pub geom: Geometry,
    pub material: SpecMaterial,
}

/// One scene object: a geometry and the material on its surface.
#[derive(Debug, Clone, Copy, PartialEq, Eq, Structural)]
pub struct Primitive {
    geom: Geometry,
    material: Material,
}

impl View for Primitive {
    type V = SpecPrimitive;

    closed spec fn view(&self) -> SpecPrimitive {
        SpecPrimitive { geom: self.geom, material: self.material@ }
    }
}

impl Primitive {
    /// Pair a geometry with a material.
    pub fn new(geom: Geometry, material: Material) -> (r: Primitive)
        ensures
            r@.geom == geom,
            r@.material == material@,
    {
        Primitive { geom, material }
    }

    /// The primitive's geometry.
    pub fn geom(&self) -> (r: &Geometry)
        ensures
            *r == self@.geom,
    {
        &self.geom
    }

    /// The primitive's material.
    pub fn material(&self) -> (r: &Material)
        ensures
            r@ == self@.material,
    {
        &self.material
    }
}

/// What the scene reports about the closest hit: which primitive was hit,
/// the hit point, the outward-corrected unit normal, and whether the ray
/// started inside the surface.
pub struct IntersectionInfo {
    pub prim_idx: usize,
    pub point: Vec3,
    pub normal: Unit3,
    pub inside: bool,
}

/// An ordered collection of primitives; read-only while rendering.
pub struct Scene {
    primitives: Vec<Primitive>,
}

impl View for Scene {
    type V = Seq<SpecPrimitive>;

    closed spec fn view(&self) -> Seq<SpecPrimitive> {
        self.primitives@.map_values(|p: Primitive| p@)
    }
}

/// Every material in the scene is well-formed.
pub open spec fn spec_scene_wf(s: Seq<SpecPrimitive>) -> bool {
    forall|i: int| 0 <= i < s.len() ==> spec_material_wf(#[trigger] s[i].material)
}

/// The closest hit over the first `n` primitives, as `(index, distance)`;
/// on equal distances the earliest primitive wins.
pub open spec fn spec_closest_hit(
    s: Seq<SpecPrimitive>,
    origin: SpecVec3,
    dir: SpecVec3,
    n: int,
) -> Option<(int, int)>
    decreases n,
{
    if n <= 0 {
        None
    } else {
        let best = spec_closest_hit(s, origin, dir, n - 1);
        match spec_geom_intersect(s[n - 1].geom, origin, dir) {
            Some(dist) => match best {
                Some(b) => if dist < b.1 {
                    Some((n - 1, dist))
                } else {
                    best
                },
                None => Some((n - 1, dist)),
            },
            None => best,
        }
    }
}

/// The primitive's hit distance along the ray is no smaller than `t` (or it
/// is not hit at all).
pub open spec fn spec_hit_no_closer(
    p: SpecPrimitive,
    origin: SpecVec3,
    dir: SpecVec3,
    t: int,
) -> bool {
    match spec_geom_intersect(p.geom, origin, dir) {
        Some(d) => d >= t,
        None => true,
    }
}

/// The closest-hit search really is a minimum: over the first `n`
/// primitives, a reported hit names a primitive the ray hits at that
/// distance and no primitive the ray hits closer (with the earliest
/// primitive winning ties), and a reported miss means no primitive is hit.
pub proof fn lemma_closest_hit_minimal(
    s: Seq<SpecPrimitive>,
    origin: SpecVec3,
    dir: SpecVec3,
    n: int,
)
    requires
        0 <= n <= s.len(),
    ensures
        match spec_closest_hit(s, origin, dir, n) {
            Some(h) => {
                &&& 0 <= h.0 < n
                &&& spec_geom_intersect(s[h.0].geom, origin, dir) == Some(h.1)
                &&& forall|j: int|
                    0 <= j < n ==> spec_hit_no_closer(#[trigger] s[j], origin, dir, h.1)
                &&& forall|j: int|
                    0 <= j < h.0 ==> !(spec_geom_intersect(
                        (#[trigger] s[j]).geom,
                        origin,
                        dir,
                    ) matches Some(d) && d <= h.1)
            },
            None => forall|j: int|
                0 <= j < n ==> spec_geom_intersect((#[trigger] s[j]).geom, origin, dir)
                    is None,
        },
    decreases n,
{
    if n > 0 {
        lemma_closest_hit_minimal(s, origin, dir, n - 1);
    }
}

impl Scene {
    /// The empty scene.
    pub fn new() -> (r: Scene)
        ensures
            r@ =~= Seq::<SpecPrimitive>::empty(),
    {
        Scene { primitives: Vec::new() }
    }

    /// A scene holding the given primitives, in order.
    pub fn with_primitives(primitives: Vec<Primitive>) -> (r: Scene)
        ensures
            r@ =~= primitives@.map_values(|p: Primitive| p@),
    {
        Scene { primitives }
    }

    /// The primitives, in order.
    pub fn primitives(&self) -> (r: &[Primitive])
        ensures
            r@.map_values(|p: Primitive| p@) =~= self@,
    {
        self.primitives.as_slice()
    }

    /// Append a primitive.
    pub fn add_primitive(&mut self, primitive: Primitive)
        ensures
            final(self)@ =~= old(self)@.push(primitive@),
    {
        self.primitives.push(primitive);
    }

    /// Find the closest primitive the ray hits, and describe the hit: the
    /// hit point, the unit normal re-oriented to face the incoming ray (a
    /// tangent ray, cosine exactly zero, counts as outside), and whether the
    /// geometric normal had to be flipped.
    pub fn intersect(&self, ray: &Ray) -> (r: Option<IntersectionInfo>)
        ensures
            (r is Some) == (spec_closest_hit(self@, ray.origin@, ray.dir@, self@.len() as int)
                is Some),
            r matches Some(info) ==> {
                let hit = spec_closest_hit(
                    self@,
                    ray.origin@,
                    ray.dir@,
                    self@.len() as int,
                )->Some_0;
                let raw = spec_geom_normal_at(self@[hit.0].geom, info.point@);
                &&& 0 <= hit.0 < self@.len()
                &&& info.prim_idx as int == hit.0
                &&& info.point@ == spec_ray_interp(ray.origin@, ray.dir@, hit.1)
                &&& info.inside == (spec_v3_dot(raw, ray.dir@) > 0)
                &&& info.normal@ == if info.inside {
                    spec_v3_neg(raw)
                } else {
                    raw
                }
                &&& spec_v3_dot(info.normal@, ray.dir@) <= 0
            },
    {
        let mut best: Option<(usize, i64)> = None;
        let n = self.primitives.len();
        let mut i: usize = 0;
        while i < n
            invariant
                n == self.primitives.len(),
                i <= n,
                match best {
                    Some(b) => {
                        &&& 0 <= b.0 < i
                        &&& spec_closest_hit(self@, ray.origin@, ray.dir@, i as int) == Some(
                            (b.0 as int, b.1 as int),
                        )
                    },
                    None => spec_closest_hit(self@, ray.origin@, ray.dir@, i as int) is None,
                },
            decreases n - i,
        {
            assert(self@[i as int].geom == self.primitives@[i as int]@.geom);
            if let Some(dist) = self.primitives[i].geom().intersect(ray) {
                match best {
                    Some((_, min_dist)) => {
                        if dist < min_dist {
                            best = Some((i, dist));
                        }
                    },
                    None => {
                        best = Some((i, dist));
                    },
                }
            }
            i = i + 1;
        }
        match best {
            None => None,
            Some((idx, dist)) => {
                let point = ray.interp(dist);
                let prim = &self.primitives[idx];
                let normal = geom_normal_any(prim.geom(), point);
                // A cosine of exactly zero is a tangent hit, still outside.
                let inside = normal.as_vec3().dot(ray.dir.as_vec3()) > 0;
                let oriented = if inside {
                    Unit3::flip(normal)
                } else {
                    normal
                };
                proof {
                    crate::math::lemma_dot_neg_left(normal@, ray.dir@);
                }
                Some(IntersectionInfo { prim_idx: idx, point, normal: oriented, inside })
            },
        }
    }
}

/// The outward unit normal of a geometry at a point, total: the normal of a
/// degenerate query (a point at a sphere's center) falls back to the z axis.
fn geom_normal_any(g: &Geometry, point: Vec3) -> (r: Unit3)
    ensures
        r@ == spec_geom_normal_at(*g, point@),
{
    match g {
        Geometry::Sphere(s) => normalize(point.sub(s.center())),
    }
}

/// The specular-lobe weight for a cone of cosine `cos_alpha`: the ratio of
/// the cone's solid-angle-uniform sampling density to the lobe's BRDF/PDF
/// product, `2 (1 - cos a) / (1 - cos^2 a)`, taken as one when the cone
/// flattens (`cos a` below epsilon) or when the denominator rounds to
/// nothing (`cos a` rounds to one).
pub open spec fn spec_glossy_weight(cos_alpha: int) -> int {
    if cos_alpha < EPSILON {
        FX_ONE as int
    } else {
        let denom = spec_fx_sub(FX_ONE as int, spec_fx_mul(cos_alpha, cos_alpha));
        if denom <= 0 {
            FX_ONE as int
        } else {
            spec_fx_div(spec_fx_mul(2 * FX_ONE, spec_fx_sub(FX_ONE as int, cos_alpha)), denom)
        }
    }
}

/// The specular-lobe weight; radiometric correctness of the glossy branch
/// rests on this one formula.
pub fn glossy_weight(cos_alpha: i64) -> (r: i64)
    ensures
        r == spec_glossy_weight(cos_alpha as int),
        -FX_ONE <= cos_alpha <= FX_ONE ==> r >= 0,
{
    if cos_alpha < EPSILON {
        FX_ONE
    } else {
        let denom = fx_sub(FX_ONE, fx_mul(cos_alpha, cos_alpha));
        if denom <= 0 {
            FX_ONE
        } else {
            proof {
                if cos_alpha <= FX_ONE {
                    crate::fixed::lemma_fx_mul_nonneg(
                        2 * FX_ONE,
                        spec_fx_sub(FX_ONE as int, cos_alpha as int),
                    );
                    crate::fixed::lemma_fx_div_nonneg(
                        spec_fx_mul(2 * FX_ONE, spec_fx_sub(FX_ONE as int, cos_alpha as int)),
                        denom as int,
                    );
                }
            }
            fx_div(fx_mul(2 * FX_ONE, fx_sub(FX_ONE, cos_alpha)), denom)
        }
    }
}

/// What the glossy branch contributes for a sampled direction: zero when
/// the direction points into the surface (cosine negative, a deliberate
/// approximation of this lobe model, not compensated in the weight), else
/// the incoming radiance weighted by the lobe weight times the cosine.
pub open spec fn spec_glossy_contribution(
    cos_alpha: int,
    cos_theta: int,
    incoming: SpecVec3,
) -> SpecVec3 {
    if cos_theta < 0 {
        crate::math::spec_v3_zero()
    } else {
        spec_v3_mul(incoming, spec_fx_mul(spec_glossy_weight(cos_alpha), cos_theta))
    }
}

/// The glossy branch's contribution for a sampled direction.
pub fn glossy_contribution(cos_alpha: i64, cos_theta: i64, incoming: Vec3) -> (r: Vec3)
    ensures
        r@ == spec_glossy_contribution(cos_alpha as int, cos_theta as int, incoming@),
        -FX_ONE <= cos_alpha <= FX_ONE && spec_v3_nonneg(incoming@) ==> spec_v3_nonneg(r@),
        incoming@ == crate::math::spec_v3_zero() ==> r@ == crate::math::spec_v3_zero(),
{
    if cos_theta < 0 {
        return Vec3::default();
    }
    let coeff = glossy_weight(cos_alpha);
    proof {
        if -FX_ONE <= cos_alpha <= FX_ONE {
            crate::fixed::lemma_fx_mul_nonneg(coeff as int, cos_theta as int);
            if spec_v3_nonneg(incoming@) {
                crate::math::lemma_v3_mul_nonneg(
                    incoming@,
                    spec_fx_mul(coeff as int, cos_theta as int),
                );
            }
        }
        crate::math::lemma_v3_mul_zero(spec_fx_mul(coeff as int, cos_theta as int));
    }
    incoming.mul(fx_mul(coeff, cos_theta))
}

/// A material that neither reflects nor scatters: reflected radiance is
/// always zero on such a surface.
pub open spec fn spec_mat_absorbing(m: SpecMaterial) -> bool {
    m.reflectance <= 0 && spec_v3_magsq(m.albedo) <= EPSILON
}

/// No primitive in the scene emits any radiance.
pub open spec fn spec_scene_dark(s: Seq<SpecPrimitive>) -> bool {
    forall|i: int|
        0 <= i < s.len() ==> (#[trigger] s[i].material).emittance == crate::math::spec_v3_zero()
}

impl Scene {
    /// Estimate the radiance the surface at `info` reflects back along
    /// `ray`, by one stochastic bounce: a Bernoulli trial picks the
    /// specular-glossy lobe with probability `reflectance`, else the surface
    /// scatters diffusely (or absorbs, if its albedo is black).
    fn trace_reflection(
        &self,
        ray: &Ray,
        info: &IntersectionInfo,
        rng: &mut rand::rngs::StdRng,
        depth: u32,
        max_depth: u32,
    ) -> (r: Vec3)
        requires
            depth <= max_depth,
            spec_scene_wf(self@),
            (info.prim_idx as int) < self@.len(),
        ensures
            spec_v3_nonneg(r@),
            spec_mat_absorbing(self@[info.prim_idx as int].material) ==> r@
                == crate::math::spec_v3_zero(),
            spec_scene_dark(self@) ==> r@ == crate::math::spec_v3_zero(),
        decreases max_depth - depth, 1int,
    {
        proof {
            assert(self@[info.prim_idx as int] == self.primitives@[info.prim_idx as int]@);
        }
        let material = *self.primitives[info.prim_idx].material();

        if material.reflectance > 0 && crate::rng::next_unit(rng) < material.reflectance {
            // Specular-glossy branch: sample uniformly inside the cone of
            // half-angle `alpha` around the mirror direction; gloss 1 gives
            // a perfect mirror, gloss 0 nearly a hemisphere.
            let alpha = fx_mul(fx_sub(FX_ONE, material.gloss), crate::trig::FX_HALF_PI);
            let cos_alpha = fx_cos(alpha);

            let ray_dir: Vec3 = ray.dir.as_vec3();
            let normal: Vec3 = info.normal.as_vec3();

            let reflection_dir = ray_dir.sub(normal.mul(fx_mul(2 * FX_ONE, ray_dir.dot(normal))));

            let dir = crate::sample::sample_uniform_cone(
                normalize(reflection_dir),
                alpha,
                crate::rng::next_unit(rng),
                crate::rng::next_angle(rng),
            );
            let cos_theta = dir.as_vec3().dot(normal);

            if cos_theta < 0 {
                // The sampled direction points into the surface: zero
                // contribution, and no recursion for it.
                return glossy_contribution(cos_alpha, cos_theta, Vec3::default());
            }

            let incoming = self.trace_ray(
                &Ray { origin: info.point, dir },
                rng,
                depth,
                max_depth,
            );

            return glossy_contribution(cos_alpha, cos_theta, incoming);
        }

        if material.albedo.mag_squared() > EPSILON {
            // Diffuse branch: cosine-weighted sampling cancels both the
            // cosine and the 1/pi of the BRDF analytically, so the incoming
            // radiance is filtered through the albedo and nothing else.
            let dir = crate::sample::sample_cos_weighted_hemisphere(
                info.normal,
                crate::rng::next_unit(rng),
                crate::rng::next_angle(rng),
            );
            let incoming = self.trace_ray(
                &Ray { origin: info.point, dir },
                rng,
                depth,
                max_depth,
            );
            proof {
                crate::math::lemma_v3_cmul_nonneg(material.albedo@, incoming@);
                if spec_scene_dark(self@) {
                    crate::math::lemma_v3_cmul_zero_right(material.albedo@);
                }
            }
            return material.albedo.component_mul(incoming);
        }

        Vec3::default()
    }

    /// Estimate the radiance arriving along `ray`: zero at the depth cutoff
    /// or on a miss (the background is black), else the hit material's
    /// emittance plus one sampled bounce of reflected radiance.
    pub fn trace_ray(
        &self,
        ray: &Ray,
        rng: &mut rand::rngs::StdRng,
        depth: u32,
        max_depth: u32,
    ) -> (r: Vec3)
        requires
            spec_scene_wf(self@),
        ensures
            spec_v3_nonneg(r@),
            depth >= max_depth ==> r@ == crate::math::spec_v3_zero(),
            spec_closest_hit(self@, ray.origin@, ray.dir@, self@.len() as int) is None ==> r@
                == crate::math::spec_v3_zero(),
            depth < max_depth ==> (spec_closest_hit(
                self@,
                ray.origin@,
                ray.dir@,
                self@.len() as int,
            ) matches Some(h) ==> (spec_mat_absorbing(self@[h.0].material) ==> r@ == self@[
                h.0
            ].material.emittance)),
            spec_scene_dark(self@) ==> r@ == crate::math::spec_v3_zero(),
        decreases max_depth - depth, 0int,
    {
        if depth >= max_depth {
            return Vec3::default();
        }

        let info = match self.intersect(ray) {
            None => {
                return Vec3::default();
            },
            Some(info) => info,
        };

        proof {
            assert(self@[info.prim_idx as int] == self.primitives@[info.prim_idx as int]@);
            assert(spec_material_wf(self@[info.prim_idx as int].material));
            crate::math::lemma_v3_add_zero(self@[info.prim_idx as int].material.emittance);
        }
        let material = *self.primitives[info.prim_idx].material();

        material.emittance.add(self.trace_reflection(ray, &info, rng, depth + 1, max_depth))
    }
}

/// A supported pixel grid has at most 16384 * 16384 cells.
proof fn lemma_grid_size(w: int, h: int)
    by (nonlinear_arith)
    requires
        1 <= w <= 16384,
        1 <= h <= 16384,
    ensures
        1 <= w * h <= 16384 * 16384,
{
}

/// Options a render run can actually execute: positive image dimensions
/// within the supported size, a usable sample count, and a camera that
/// `Camera::new` accepts.
pub open spec fn spec_render_opts_wf(opts: RenderOptions) -> bool {
    &&& 1 <= opts.width <= 16384
    &&& 1 <= opts.height <= 16384
    &&& 1 <= opts.samples_per_pixel <= 1048576
    &&& spec_camera_nondegenerate(opts.camera_options)
    &&& FX_ONE <= opts.camera_options.vert_fov <= 179 * FX_ONE
}

/// The direction of the view ray through pixel `(x, y)`, jittered inside
/// the pixel by the variates `(u1, u2)`.
pub open spec fn spec_pixel_ray_dir(cam: SpecCamera, x: int, y: int, u1: int, u2: int) -> SpecVec3 {
    spec_cast_dir(cam, x * (FX_ONE as int) + u1, y * (FX_ONE as int) + u2)
}

/// The closest hit of the jittered view ray through pixel `(x, y)`.
pub open spec fn spec_pixel_hit(
    s: Seq<SpecPrimitive>,
    cam: SpecCamera,
    x: int,
    y: int,
    u1: int,
    u2: int,
) -> Option<(int, int)> {
    spec_closest_hit(s, cam.pos, spec_pixel_ray_dir(cam, x, y, u1, u2), s.len() as int)
}

/// Whatever the jitter, the view ray through pixel `(x, y)` hits, closest,
/// an absorbing primitive that emits `e`: no random draw decides such a
/// pixel's value.
pub open spec fn spec_pixel_sure_hit(
    s: Seq<SpecPrimitive>,
    cam: SpecCamera,
    x: int,
    y: int,
    e: SpecVec3,
) -> bool {
    forall|u1: int, u2: int|
        0 <= u1 < FX_ONE && 0 <= u2 < FX_ONE ==> match #[trigger] spec_pixel_hit(
            s,
            cam,
            x,
            y,
            u1,
            u2,
        ) {
            Some(h) => spec_mat_absorbing(s[h.0].material) && s[h.0].material.emittance == e,
            None => false,
        }
}

/// Whatever the jitter, the view ray through pixel `(x, y)` misses every
/// primitive.
pub open spec fn spec_pixel_sure_miss(
    s: Seq<SpecPrimitive>,
    cam: SpecCamera,
    x: int,
    y: int,
) -> bool {
    forall|u1: int, u2: int|
        0 <= u1 < FX_ONE && 0 <= u2 < FX_ONE ==> #[trigger] spec_pixel_hit(s, cam, x, y, u1, u2)
            is None
}

/// Estimate one pixel: average `samples` independent radiance estimates
/// through jittered positions inside the pixel.
///
/// Where no random draw decides the outcome, the contract pins the pixel:
/// if every jittered ray misses, the pixel is exactly zero; if every
/// jittered ray lands, closest, on an absorbing emitter of color `e` (and
/// the sum of samples cannot saturate), the pixel is exactly `e`.
pub fn render_pixel(
    scene: &Scene,
    cam: &Camera,
    x: u32,
    y: u32,
    samples: u32,
    max_depth: u32,
    rng: &mut rand::rngs::StdRng,
) -> (r: Vec3)
    requires
        spec_scene_wf(scene@),
        x <= 16384,
        y <= 16384,
        1 <= samples <= 1048576,
    ensures
        spec_v3_nonneg(r@),
        spec_scene_dark(scene@) ==> r@ == crate::math::spec_v3_zero(),
        spec_pixel_sure_miss(scene@, cam@, x as int, y as int) ==> r@
            == crate::math::spec_v3_zero(),
        forall|e: SpecVec3|
            #[trigger] spec_pixel_sure_hit(scene@, cam@, x as int, y as int, e) && max_depth
                >= 1 && samples * e.x <= crate::fixed::FX_MAX && samples * e.y
                <= crate::fixed::FX_MAX && samples * e.z <= crate::fixed::FX_MAX ==> r@ == e,
{
    let mut total = Vec3::default();
    let mut s: u32 = 0;
    while s < samples
        invariant
            spec_scene_wf(scene@),
            x <= 16384,
            y <= 16384,
            1 <= samples <= 1048576,
            s <= samples,
            spec_v3_nonneg(total@),
            spec_scene_dark(scene@) ==> total@ == crate::math::spec_v3_zero(),
            spec_pixel_sure_miss(scene@, cam@, x as int, y as int) ==> total@
                == crate::math::spec_v3_zero(),
            forall|e: SpecVec3|
                #[trigger] spec_pixel_sure_hit(scene@, cam@, x as int, y as int, e) && max_depth
                    >= 1 && samples * e.x <= crate::fixed::FX_MAX && samples * e.y
                    <= crate::fixed::FX_MAX && samples * e.z <= crate::fixed::FX_MAX ==> total@
                    == (SpecVec3 { x: s * e.x, y: s * e.y, z: s * e.z }),
        decreases samples - s,
    {
        let u1 = crate::rng::next_unit(rng);
        let u2 = crate::rng::next_unit(rng);
        let px = (x as i64) * FX_ONE + u1;
        let py = (y as i64) * FX_ONE + u2;
        let ray = cam.cast_ray(px, py);
        let sampled = scene.trace_ray(&ray, rng, 0, max_depth);
        proof {
            let hit = spec_pixel_hit(scene@, cam@, x as int, y as int, u1 as int, u2 as int);
            assert(ray.dir@ == spec_pixel_ray_dir(
                cam@,
                x as int,
                y as int,
                u1 as int,
                u2 as int,
            ));
            assert(hit == spec_closest_hit(scene@, ray.origin@, ray.dir@, scene@.len() as int));
            if spec_pixel_sure_miss(scene@, cam@, x as int, y as int) {
                assert(hit is None);
                assert(sampled@ == crate::math::spec_v3_zero());
            }
            assert forall|e: SpecVec3|
                #[trigger] spec_pixel_sure_hit(scene@, cam@, x as int, y as int, e) && max_depth
                    >= 1 && samples * e.x <= crate::fixed::FX_MAX && samples * e.y
                    <= crate::fixed::FX_MAX && samples * e.z
                    <= crate::fixed::FX_MAX implies spec_v3_add(total@, sampled@) == (SpecVec3 {
                x: (s + 1) * e.x,
                y: (s + 1) * e.y,
                z: (s + 1) * e.z,
            }) by {
                // This draw's ray lands on the absorbing emitter, so the
                // sample is exactly its color.
                assert(hit matches Some(h) && spec_mat_absorbing(scene@[h.0].material)
                    && scene@[h.0].material.emittance == e);
                let h = hit->Some_0;
                lemma_closest_hit_minimal(scene@, ray.origin@, ray.dir@, scene@.len() as int);
                assert(spec_material_wf(scene@[h.0].material));
                assert(sampled@ == e);
                // One more equal summand; the partial sums never saturate.
                lemma_sum_step(e.x, s as int, samples as int);
                lemma_sum_step(e.y, s as int, samples as int);
                lemma_sum_step(e.z, s as int, samples as int);
            }
        }
        total = total.add(sampled);
        s = s + 1;
    }
    let avg = total.div((samples as i64) * FX_ONE);
    proof {
        crate::math::lemma_v3_div_nonneg(total@, (samples as int) * (FX_ONE as int));
        if spec_scene_dark(scene@) || spec_pixel_sure_miss(scene@, cam@, x as int, y as int) {
            crate::math::lemma_v3_div_zero((samples as int) * (FX_ONE as int));
        }
        assert forall|e: SpecVec3|
            #[trigger] spec_pixel_sure_hit(scene@, cam@, x as int, y as int, e) && max_depth
                >= 1 && samples * e.x <= crate::fixed::FX_MAX && samples * e.y
                <= crate::fixed::FX_MAX && samples * e.z
                <= crate::fixed::FX_MAX implies avg@ == e by {
            // A witness jitter shows the emitter is a well-formed material,
            // so `e` is representable and the exact average is `e` itself.
            let hit0 = spec_pixel_hit(scene@, cam@, x as int, y as int, 0, 0);
            assert(hit0 matches Some(h) && scene@[h.0].material.emittance == e);
            let h = hit0->Some_0;
            lemma_closest_hit_minimal(
                scene@,
                cam@.pos,
                spec_pixel_ray_dir(cam@, x as int, y as int, 0, 0),
                scene@.len() as int,
            );
            assert(spec_material_wf(scene@[h.0].material));
            crate::fixed::lemma_fx_average_of_equal(e.x, samples as int);
            crate::fixed::lemma_fx_average_of_equal(e.y, samples as int);
            crate::fixed::lemma_fx_average_of_equal(e.z, samples as int);
        }
    }
    avg
}

/// Appending one more copy of a representable summand to a partial sum of
/// copies neither saturates nor leaves the grid of multiples.
proof fn lemma_sum_step(e: int, s: int, samples: int)
    requires
        0 <= e,
        0 <= s < samples,
        samples * e <= crate::fixed::FX_MAX,
    ensures
        (s + 1) * e == s * e + e,
        0 <= s * e,
        0 <= (s + 1) * e <= crate::fixed::FX_MAX,
{
    assert((s + 1) * e == s * e + e) by (nonlinear_arith);
    assert(0 <= s * e) by (nonlinear_arith)
        requires
            0 <= s,
            0 <= e,
    ;
    assert((s + 1) * e <= samples * e) by {
        vstd::arithmetic::mul::lemma_mul_inequality(s + 1, samples, e);
    }
}

/// Render the whole pixel grid into `pixels` (row-major, length
/// `width * height`), sequentially; parallel drivers split the same index
/// space over workers and call `render_pixel` for the indices they own.
pub fn render_to(
    scene: &Scene,
    pixels: &mut Vec<Vec3>,
    opts: &RenderOptions,
    rng: &mut rand::rngs::StdRng,
)
    requires
        spec_scene_wf(scene@),
        spec_render_opts_wf(*opts),
        old(pixels)@.len() == opts.width * opts.height,
    ensures
        final(pixels)@.len() == opts.width * opts.height,
        forall|i: int|
            0 <= i < final(pixels)@.len() ==> spec_v3_nonneg(#[trigger] final(pixels)@[i]@),
        spec_scene_dark(scene@) ==> forall|i: int|
            0 <= i < final(pixels)@.len() ==> #[trigger] final(pixels)@[i]@
                == crate::math::spec_v3_zero(),
        forall|i: int|
            0 <= i < final(pixels)@.len() && #[trigger] spec_pixel_sure_miss(
                scene@,
                spec_camera_new(opts.camera_options, opts.width, opts.height),
                i % (opts.width as int),
                i / (opts.width as int),
            ) ==> final(pixels)@[i]@ == crate::math::spec_v3_zero(),
        forall|i: int, e: SpecVec3|
            0 <= i < final(pixels)@.len() && #[trigger] spec_pixel_sure_hit(
                scene@,
                spec_camera_new(opts.camera_options, opts.width, opts.height),
                i % (opts.width as int),
                i / (opts.width as int),
                e,
            ) && opts.max_depth >= 1 && opts.samples_per_pixel * e.x <= crate::fixed::FX_MAX
                && opts.samples_per_pixel * e.y <= crate::fixed::FX_MAX
                && opts.samples_per_pixel * e.z <= crate::fixed::FX_MAX
                ==> final(pixels)@[i]@ == e,
{
    let cam = Camera::new(&opts.camera_options, opts.width, opts.height);

    proof {
        lemma_grid_size(opts.width as int, opts.height as int);
    }
    let n: usize = (opts.width as usize) * (opts.height as usize);
    let mut idx: usize = 0;
    while idx < n
        invariant
            spec_scene_wf(scene@),
            spec_render_opts_wf(*opts),
            n == opts.width * opts.height,
            n <= 16384 * 16384,
            pixels@.len() == n,
            idx <= n,
            cam@ == spec_camera_new(opts.camera_options, opts.width, opts.height),
            forall|i: int| 0 <= i < idx ==> spec_v3_nonneg(#[trigger] pixels@[i]@),
            spec_scene_dark(scene@) ==> forall|i: int|
                0 <= i < idx ==> #[trigger] pixels@[i]@ == crate::math::spec_v3_zero(),
            forall|i: int|
                0 <= i < idx && #[trigger] spec_pixel_sure_miss(
                    scene@,
                    cam@,
                    i % (opts.width as int),
                    i / (opts.width as int),
                ) ==> pixels@[i]@ == crate::math::spec_v3_zero(),
            forall|i: int, e: SpecVec3|
                0 <= i < idx && #[trigger] spec_pixel_sure_hit(
                    scene@,
                    cam@,
                    i % (opts.width as int),
                    i / (opts.width as int),
                    e,
                ) && opts.max_depth >= 1 && opts.samples_per_pixel * e.x
                    <= crate::fixed::FX_MAX && opts.samples_per_pixel * e.y
                    <= crate::fixed::FX_MAX && opts.samples_per_pixel * e.z
                    <= crate::fixed::FX_MAX ==> pixels@[i]@ == e,
        decreases n - idx,
    {
        let x = (idx as u32) % opts.width;
        let y = (idx as u32) / opts.width;
        proof {
            assert(y <= 16384) by (nonlinear_arith)
                requires
                    y == (idx as u32) / opts.width,
                    idx < opts.width * opts.height,
                    idx <= 0x10000000,
                    1 <= opts.width,
                    opts.height <= 16384,
            ;
        }
        proof {
            assert(x as int == (idx as int) % (opts.width as int));
            assert(y as int == (idx as int) / (opts.width as int));
        }
        let value = render_pixel(
            scene,
            &cam,
            x,
            y,
            opts.samples_per_pixel,
            opts.max_depth,
            rng,
        );
        pixels[idx] = value;
        idx = idx + 1;
    }
}

/// Render the scene into a fresh pixel buffer of length `width * height`.
pub fn render(scene: &Scene, opts: &RenderOptions, rng: &mut rand::rngs::StdRng) -> (r: Vec<
    Vec3,
>)
    requires
        spec_scene_wf(scene@),
        spec_render_opts_wf(*opts),
    ensures
        r@.len() == opts.width * opts.height,
        forall|i: int| 0 <= i < r@.len() ==> spec_v3_nonneg(#[trigger] r@[i]@),
        spec_scene_dark(scene@) ==> forall|i: int|
            0 <= i < r@.len() ==> #[trigger] r@[i]@ == crate::math::spec_v3_zero(),
        forall|i: int|
            0 <= i < r@.len() && #[trigger] spec_pixel_sure_miss(
                scene@,
                spec_camera_new(opts.camera_options, opts.width, opts.height),
                i % (opts.width as int),
                i / (opts.width as int),
            ) ==> r@[i]@ == crate::math::spec_v3_zero(),
        forall|i: int, e: SpecVec3|
            0 <= i < r@.len() && #[trigger] spec_pixel_sure_hit(
                scene@,
                spec_camera_new(opts.camera_options, opts.width, opts.height),
                i % (opts.width as int),
                i / (opts.width as int),
                e,
            ) && opts.max_depth >= 1 && opts.samples_per_pixel * e.x <= crate::fixed::FX_MAX
                && opts.samples_per_pixel * e.y <= crate::fixed::FX_MAX
                && opts.samples_per_pixel * e.z <= crate::fixed::FX_MAX ==> r@[i]@ == e,
{
    proof {
        lemma_grid_size(opts.width as int, opts.height as int);
    }
    let n: usize = (opts.width as usize) * (opts.height as usize);
    let mut pixels: Vec<Vec3> = Vec::new();
    let mut i: usize = 0;
    while i < n
        invariant
            pixels@.len() == i,
            i <= n,
        decreases n - i,
    {
        pixels.push(Vec3::default());
        i = i + 1;
    }
    render_to(scene, &mut pixels, opts, rng);
    pixels
}

} // verus!
