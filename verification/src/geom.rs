//! Geometric primitives and ray intersection.
//!
//! The one geometry kind implemented is the sphere; `Geometry` is the closed
//! variant type the scene stores, so new kinds can be added without touching
//! the estimator.

use vstd::prelude::*;

use crate::fixed::{fx_add, fx_mul, fx_neg, fx_sqrt, fx_sub};
use crate::fixed::{spec_fx_add, spec_fx_mul, spec_fx_neg, spec_fx_sqrt, spec_fx_sub};
use crate::math::{spec_v3_dot, spec_v3_magsq, spec_v3_normalize, spec_v3_sub};
use crate::math::{Ray, SpecVec3, Unit3, Vec3, EPSILON};

verus! {

/// The mathematical value of an `Option<i64>` result.
pub open spec fn spec_opt_fx(o: Option<i64>) -> Option<int> {
    match o {
        Some(t) => Some(t as int),
        None => None,
    }
}

/// The mathematical value of a `Sphere`.
pub ghost struct SpecSphere {
    pub center: SpecVec3,
    pub radius: int,
}

/// A sphere: center and positive radius.
#[derive(Debug, Clone, Copy, PartialEq, Eq, Structural)]
pub struct Sphere {
    center: Vec3,
    radius: i64,
}

impl View for Sphere {
    type V = SpecSphere;

    closed spec fn view(&self) -> SpecSphere {
        SpecSphere { center: self.center@, radius: self.radius as int }
    }
}

/// Distance along the ray to the sphere, if the ray hits it.
///
/// Solves `t^2 + 2tb + c = 0` with `b = (origin - center) . dir` and
/// `c = |origin - center|^2 - radius^2`; a negative discriminant is a miss,
/// and of the two roots the nearer one strictly beyond `EPSILON` is returned
/// (rejecting hits behind the origin and self-intersections).
pub open spec fn spec_sphere_intersect(
    sph: SpecSphere,
    origin: SpecVec3,
    dir: SpecVec3,
) -> Option<int> {
    let oc = spec_v3_sub(origin, sph.center);
    let b = spec_v3_dot(oc, dir);
    let desc = spec_fx_add(
        spec_fx_sub(spec_fx_mul(b, b), spec_v3_magsq(oc)),
        spec_fx_mul(sph.radius, sph.radius),
    );
    if desc < 0 {
        None
    } else {
        let radical = spec_fx_sqrt(desc);
        let t1 = spec_fx_sub(spec_fx_neg(b), radical);
        let t2 = spec_fx_add(spec_fx_neg(b), radical);
        if t1 > EPSILON {
            Some(t1)
        } else if t2 > EPSILON {
            Some(t2)
        } else {
            None
        }
    }
}

/// The outward unit normal at a point of the sphere's surface.
pub open spec fn spec_sphere_normal_at(sph: SpecSphere, point: SpecVec3) -> SpecVec3 {
    spec_v3_normalize(spec_v3_sub(point, sph.center))
}

impl Sphere {
    /// Build a sphere; a non-positive radius is a fatal configuration error,
    /// ruled out here.
    pub fn new(center: Vec3, radius: i64) -> (r: Sphere)
        requires
            radius >= 1,
        ensures
            r@.center == center@,
            r@.radius == radius as int,
    {
        Sphere { center, radius }
    }

    /// The sphere's center.
    pub fn center(&self) -> (r: Vec3)
        ensures
            r@ == self@.center,
    {
        self.center
    }

    /// The sphere's radius.
    pub fn radius(&self) -> (r: i64)
        ensures
            r as int == self@.radius,
    {
        self.radius
    }

    /// Distance along the ray to this sphere, if it is hit.
    pub fn intersect(&self, ray: &Ray) -> (r: Option<i64>)
        ensures
            spec_opt_fx(r) == spec_sphere_intersect(self@, ray.origin@, ray.dir@),
            r matches Some(t) ==> t > EPSILON,
    {
        let oc = ray.origin.sub(self.center);
        let b = oc.dot(ray.dir.as_vec3());
        let desc = fx_add(
            fx_sub(fx_mul(b, b), oc.mag_squared()),
            fx_mul(self.radius, self.radius),
        );
        if desc < 0 {
            return None;
        }
        let radical = fx_sqrt(desc);
        let t1 = fx_sub(fx_neg(b), radical);
        let t2 = fx_add(fx_neg(b), radical);

        // Prefer the root closer to the origin, but reject roots at or
        // behind the origin.
        if t1 > EPSILON {
            return Some(t1);
        }
        if t2 > EPSILON {
            return Some(t2);
        }
        None
    }

    /// The outward unit normal at a surface point; calling this for a point
    /// at the sphere's center is a programming error, ruled out here.
    pub fn normal_at(&self, point: Vec3) -> (r: Unit3)
        requires
            spec_v3_magsq(spec_v3_sub(point@, self@.center)) >= 1,
        ensures
            r@ == spec_sphere_normal_at(self@, point@),
    {
        let outward = point.sub(self.center);
        outward.to_unit()
    }
}

/// A ray aimed straight at a sphere's center hits it at distance
/// `center_dist - radius`, or at `center_dist + radius` when the nearer root
/// is at or behind the origin, or not at all when both roots are.
///
/// Stated for the canonical axis-aligned configuration, where fixed-point
/// arithmetic is exact: the ray starts at the origin and looks down the
/// negative z axis, and the center distance and radius are multiples of
/// 2^-8 (so their squares are representable exactly).
pub proof fn lemma_sphere_axis_aligned_hit(cd: int, r: int)
    requires
        256 <= r <= 0x40000000,
        0 <= cd <= 0x40000000,
        r % 256 == 0,
        cd % 256 == 0,
    ensures
        spec_sphere_intersect(
            SpecSphere { center: SpecVec3 { x: 0, y: 0, z: -cd }, radius: r },
            crate::math::spec_v3_zero(),
            SpecVec3 { x: 0, y: 0, z: -(crate::fixed::FX_ONE as int) },
        ) == if cd - r > EPSILON {
            Some(cd - r)
        } else if cd + r > EPSILON {
            Some(cd + r)
        } else {
            None::<int>
        },
{
    let s = crate::fixed::FX_ONE as int;
    let sph = SpecSphere { center: SpecVec3 { x: 0, y: 0, z: -cd }, radius: r };
    let origin = crate::math::spec_v3_zero();
    let dir = SpecVec3 { x: 0, y: 0, z: -s };

    let oc = spec_v3_sub(origin, sph.center);
    assert(oc == SpecVec3 { x: 0, y: 0, z: cd });

    crate::fixed::lemma_fx_mul_zero(0);
    crate::fixed::lemma_fx_mul_by_one(cd);
    let b = spec_v3_dot(oc, dir);
    assert(b == -cd);

    if cd > 0 {
        crate::fixed::lemma_fx_sqrt_of_square(cd);
    } else {
        assert(cd * cd == 0) by (nonlinear_arith)
            requires
                cd == 0,
        ;
    }
    crate::fixed::lemma_fx_sqrt_of_square(r);
    assert((-cd) * (-cd) == cd * cd) by (nonlinear_arith);
    assert(spec_fx_mul(b, b) == spec_fx_mul(cd, cd));
    let msq = spec_v3_magsq(oc);
    assert(msq == spec_fx_mul(cd, cd));

    assert(0 <= cd * cd / s <= 0x100000000000) by {
        assert(0 <= cd * cd <= 0x40000000 * 0x40000000) by (nonlinear_arith)
            requires
                0 <= cd <= 0x40000000,
        ;
        vstd::arithmetic::div_mod::lemma_div_pos_is_pos(cd * cd, s);
        vstd::arithmetic::div_mod::lemma_div_is_ordered(cd * cd, 0x40000000int * 0x40000000int, s);
    }
    assert(0 <= r * r / s <= 0x100000000000) by {
        assert(0 <= r * r <= 0x40000000 * 0x40000000) by (nonlinear_arith)
            requires
                0 <= r <= 0x40000000,
        ;
        vstd::arithmetic::div_mod::lemma_div_pos_is_pos(r * r, s);
        vstd::arithmetic::div_mod::lemma_div_is_ordered(r * r, 0x40000000int * 0x40000000int, s);
    }

    let desc = spec_fx_add(
        spec_fx_sub(spec_fx_mul(b, b), msq),
        spec_fx_mul(sph.radius, sph.radius),
    );
    assert(desc == r * r / s);
    assert(desc > 0) by {
        assert(r * r >= s) by (nonlinear_arith)
            requires
                r >= 256,
                s == 65536,
        ;
        assert(r * r / s >= s / s) by {
            vstd::arithmetic::div_mod::lemma_div_is_ordered(s, r * r, s);
        }
    }

    let radical = spec_fx_sqrt(desc);
    assert(radical == r);

    assert(spec_fx_neg(b) == cd);
    let t1 = spec_fx_sub(spec_fx_neg(b), radical);
    let t2 = spec_fx_add(spec_fx_neg(b), radical);
    assert(t1 == cd - r);
    assert(t2 == cd + r);
}

/// The sphere normal is a unit vector within tolerance: for any query point
/// whose offset from the center is representable (components at most 4096.0)
/// and not degenerately close to the center (at least a sixteenth away), the
/// squared magnitude of the reported normal is within one 64th of one.
pub proof fn lemma_normal_at_near_unit(sph: SpecSphere, point: SpecVec3)
    requires
        crate::fixed::spec_abs(spec_v3_sub(point, sph.center).x) <= 0x10000000,
        crate::fixed::spec_abs(spec_v3_sub(point, sph.center).y) <= 0x10000000,
        crate::fixed::spec_abs(spec_v3_sub(point, sph.center).z) <= 0x10000000,
        spec_v3_magsq(spec_v3_sub(point, sph.center)) >= 4096,
    ensures
        crate::fixed::spec_abs(
            spec_v3_magsq(spec_sphere_normal_at(sph, point)) - crate::fixed::FX_ONE,
        ) <= 1024,
{
    crate::math::lemma_normalize_near_unit(spec_v3_sub(point, sph.center));
}

/// A ray whose closest approach to a sphere's center exceeds the radius
/// misses: when the computed squared distance from the center exceeds the
/// computed squared radius by more than the ray's squared projection onto
/// the center direction, the discriminant is negative and no intersection is
/// reported. This is the fixed-point form of "closest approach > radius".
pub proof fn lemma_sphere_miss(sph: SpecSphere, origin: SpecVec3, dir: SpecVec3)
    requires
        ({
            let oc = spec_v3_sub(origin, sph.center);
            let b = spec_v3_dot(oc, dir);
            spec_v3_magsq(oc) - spec_fx_mul(b, b) > spec_fx_mul(sph.radius, sph.radius)
        }),
    ensures
        spec_sphere_intersect(sph, origin, dir) is None,
{
    let oc = spec_v3_sub(origin, sph.center);
    let b = spec_v3_dot(oc, dir);
    let bb = spec_fx_mul(b, b);
    let msq = spec_v3_magsq(oc);
    let rr = spec_fx_mul(sph.radius, sph.radius);
    crate::fixed::lemma_fx_square_nonneg(b);
    crate::fixed::lemma_fx_square_nonneg(sph.radius);
    crate::fixed::lemma_fx_square_nonneg(oc.x);
    crate::fixed::lemma_fx_square_nonneg(oc.y);
    crate::fixed::lemma_fx_square_nonneg(oc.z);
    assert(msq >= 0);
    assert(spec_fx_add(spec_fx_sub(bb, msq), rr) < 0);
}

/// A concrete miss: a sphere offset sideways from the ray by more than its
/// radius is never hit. In the canonical axis-aligned configuration (ray
/// from the origin down the negative z axis, all lengths multiples of
/// 2^-8), the closest approach to the center is exactly the sideways
/// offset, so an offset beyond the radius means no intersection.
pub proof fn lemma_sphere_axis_aligned_miss(cd: int, oy: int, r: int)
    requires
        256 <= r <= 0x40000000,
        0 <= cd <= 0x40000000,
        r < oy <= 0x40000000,
        r % 256 == 0,
        cd % 256 == 0,
        oy % 256 == 0,
    ensures
        spec_sphere_intersect(
            SpecSphere { center: SpecVec3 { x: 0, y: oy, z: -cd }, radius: r },
            crate::math::spec_v3_zero(),
            SpecVec3 { x: 0, y: 0, z: -(crate::fixed::FX_ONE as int) },
        ) is None,
{
    let s = crate::fixed::FX_ONE as int;
    let sph = SpecSphere { center: SpecVec3 { x: 0, y: oy, z: -cd }, radius: r };
    let origin = crate::math::spec_v3_zero();
    let dir = SpecVec3 { x: 0, y: 0, z: -s };

    let oc = spec_v3_sub(origin, sph.center);
    assert(oc == SpecVec3 { x: 0, y: -oy, z: cd });

    crate::fixed::lemma_fx_mul_zero(0);
    crate::fixed::lemma_fx_mul_zero(-oy);
    crate::fixed::lemma_fx_mul_by_one(cd);
    let b = spec_v3_dot(oc, dir);
    assert(b == -cd);

    if cd > 0 {
        crate::fixed::lemma_fx_sqrt_of_square(cd);
    } else {
        assert(cd * cd == 0) by (nonlinear_arith)
            requires
                cd == 0,
        ;
    }
    crate::fixed::lemma_fx_sqrt_of_square(r);
    crate::fixed::lemma_fx_sqrt_of_square(oy);
    assert((-cd) * (-cd) == cd * cd && (-oy) * (-oy) == oy * oy) by (nonlinear_arith);
    assert(spec_fx_mul(b, b) == spec_fx_mul(cd, cd));
    assert(spec_fx_mul(-oy, -oy) == spec_fx_mul(oy, oy));

    assert(0 <= cd * cd / s <= 0x100000000000 && 0 <= oy * oy / s <= 0x100000000000) by {
        assert(0 <= cd * cd <= 0x40000000 * 0x40000000 && 0 <= oy * oy <= 0x40000000
            * 0x40000000) by (nonlinear_arith)
            requires
                0 <= cd <= 0x40000000,
                0 <= oy <= 0x40000000,
        ;
        vstd::arithmetic::div_mod::lemma_div_pos_is_pos(cd * cd, s);
        vstd::arithmetic::div_mod::lemma_div_is_ordered(cd * cd, 0x40000000int * 0x40000000int, s);
        vstd::arithmetic::div_mod::lemma_div_pos_is_pos(oy * oy, s);
        vstd::arithmetic::div_mod::lemma_div_is_ordered(oy * oy, 0x40000000int * 0x40000000int, s);
    }
    let msq = spec_v3_magsq(oc);
    assert(msq == oy * oy / s + cd * cd / s);

    // The sideways offset exceeds the radius, so, squares being exact here,
    // the squared closest approach exceeds the squared radius.
    assert(oy * oy / s > r * r / s) by {
        let qo = oy / 256;
        let qr = r / 256;
        vstd::arithmetic::div_mod::lemma_fundamental_div_mod(oy, 256);
        vstd::arithmetic::div_mod::lemma_fundamental_div_mod(r, 256);
        assert(qo * qo > qr * qr) by (nonlinear_arith)
            requires
                oy == 256 * qo,
                r == 256 * qr,
                oy > r,
                r >= 256,
        ;
        assert(oy * oy == (qo * qo) * s && r * r == (qr * qr) * s) by (nonlinear_arith)
            requires
                oy == 256 * qo,
                r == 256 * qr,
                s == 65536,
        ;
        vstd::arithmetic::div_mod::lemma_div_multiples_vanish(qo * qo, s);
        vstd::arithmetic::div_mod::lemma_div_multiples_vanish(qr * qr, s);
        assert(s * (qo * qo) == (qo * qo) * s && s * (qr * qr) == (qr * qr) * s)
            by (nonlinear_arith);
    }
    lemma_sphere_miss(sph, origin, dir);
}

/// The closed set of geometry kinds a primitive may carry.
#[derive(Debug, Clone, Copy, PartialEq, Eq, Structural)]
pub enum Geometry {
    Sphere(Sphere),
}

/// Distance along the ray to a geometry, if it is hit.
pub open spec fn spec_geom_intersect(g: Geometry, origin: SpecVec3, dir: SpecVec3) -> Option<
    int,
> {
    match g {
        Geometry::Sphere(s) => spec_sphere_intersect(s@, origin, dir),
    }
}

/// The outward unit normal of a geometry at a surface point.
pub open spec fn spec_geom_normal_at(g: Geometry, point: SpecVec3) -> SpecVec3 {
    match g {
        Geometry::Sphere(s) => spec_sphere_normal_at(s@, point),
    }
}

/// The precondition of `normal_at` for a geometry.
pub open spec fn spec_geom_normal_pre(g: Geometry, point: SpecVec3) -> bool {
    match g {
        Geometry::Sphere(s) => spec_v3_magsq(spec_v3_sub(point, s@.center)) >= 1,
    }
}

impl Geometry {
    /// Distance along the ray to this geometry, if it is hit.
    pub fn intersect(&self, ray: &Ray) -> (r: Option<i64>)
        ensures
            spec_opt_fx(r) == spec_geom_intersect(*self, ray.origin@, ray.dir@),
            r matches Some(t) ==> t > EPSILON,
    {
        match self {
            Geometry::Sphere(s) => s.intersect(ray),
        }
    }

    /// The outward unit normal at a surface point.
    pub fn normal_at(&self, point: Vec3) -> (r: Unit3)
        requires
            spec_geom_normal_pre(*self, point@),
        ensures
            r@ == spec_geom_normal_at(*self, point@),
    {
        match self {
            Geometry::Sphere(s) => s.normal_at(point),
        }
    }
}

} // verus!
