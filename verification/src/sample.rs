//! Importance sampling: orthonormal frames, the cosine-weighted hemisphere
//! and the uniform cone.
//!
//! The samplers are deterministic: the caller draws the uniform variates
//! (each a fixed-point value in `[0, 1)`, and an angle in `[0, 2*pi)`) and
//! passes them in, so every sampler is an exact function of its arguments.

use vstd::prelude::*;

use crate::fixed::{fx_add, fx_mul, fx_sqrt, fx_sub, FX_ONE};
use crate::fixed::{spec_abs, spec_fx_add, spec_fx_mul, spec_fx_sqrt, spec_fx_sub};
use crate::math::{normalize, spec_v3_add, spec_v3_cross, spec_v3_mul, spec_v3_normalize};
use crate::math::{SpecVec3, Unit3, Vec3};
use crate::trig::{fx_cos, fx_sin, spec_fx_cos, spec_fx_sin};

verus! {

/// The mathematical value of a `Basis`.
pub ghost struct SpecBasis {
    pub x: SpecVec3,
    pub y: SpecVec3,
    pub z: SpecVec3,
}

/// A right-handed frame whose `z` axis is a surface normal.
#[derive(Debug, Clone, Copy, PartialEq, Eq, Structural)]
pub struct Basis {
    pub x: Vec3,
    pub y: Vec3,
    pub z: Vec3,
}

impl View for Basis {
    type V = SpecBasis;

    open spec fn view(&self) -> SpecBasis {
        SpecBasis { x: self.x@, y: self.y@, z: self.z@ }
    }
}

/// The frame built from a normal: a helper axis not collinear with the
/// normal (world y when the normal leans along x, world x otherwise) seeds
/// the two tangent axes through cross products.
pub open spec fn spec_basis_from_normal(n: SpecVec3) -> SpecBasis {
    let other = if spec_abs(n.x) > 6553 {
        SpecVec3 { x: 0, y: FX_ONE as int, z: 0 }
    } else {
        SpecVec3 { x: FX_ONE as int, y: 0, z: 0 }
    };
    let x = spec_v3_normalize(spec_v3_cross(other, n));
    let y = spec_v3_cross(n, x);
    SpecBasis { x, y, z: n }
}

impl Basis {
    /// Build the frame for a normal.
    pub fn from_normal(normal: Unit3) -> (r: Basis)
        ensures
            r@ == spec_basis_from_normal(normal@),
    {
        let z: Vec3 = normal.as_vec3();

        // A vector that is not collinear with the normal (threshold 0.1).
        let other = if z.x < -6553 || z.x > 6553 {
            Vec3 { x: 0, y: FX_ONE, z: 0 }
        } else {
            Vec3 { x: FX_ONE, y: 0, z: 0 }
        };

        let x = normalize(other.cross(z)).as_vec3();
        let y = z.cross(x);

        Basis { x, y, z }
    }
}

/// A sample direction expressed in a frame: `x*bx + y*by + z*bz`,
/// renormalized to guard against fixed-point rounding.
pub open spec fn spec_frame_dir(b: SpecBasis, x: int, y: int, z: int) -> SpecVec3 {
    spec_v3_normalize(
        spec_v3_add(
            spec_v3_add(spec_v3_mul(b.x, x), spec_v3_mul(b.y, y)),
            spec_v3_mul(b.z, z),
        ),
    )
}

/// The cosine-weighted hemisphere sample around `n` for uniform variates
/// `r_squared` (in `[0, 1)`) and `phi` (in `[0, 2*pi)`): Malley's method,
/// a disk point lifted to the hemisphere, whose local `z` is the sampled
/// direction's cosine with the normal.
pub open spec fn spec_sample_hemisphere(n: SpecVec3, r_squared: int, phi: int) -> SpecVec3 {
    let basis = spec_basis_from_normal(n);
    let radius = spec_fx_sqrt(r_squared);
    let x = spec_fx_mul(radius, spec_fx_cos(phi));
    let y = spec_fx_mul(radius, spec_fx_sin(phi));
    let z = spec_fx_sqrt(spec_fx_sub(FX_ONE as int, r_squared));
    spec_frame_dir(basis, x, y, z)
}

/// The uniform cone sample around `axis` with half-angle `alpha` for uniform
/// variates `u` (in `[0, 1)`) and `phi` (in `[0, 2*pi)`): the local `z` spans
/// `[cos(alpha), 1]` linearly in `u`, which covers the cone uniformly by
/// solid angle.
pub open spec fn spec_sample_cone(axis: SpecVec3, alpha: int, u: int, phi: int) -> SpecVec3 {
    let basis = spec_basis_from_normal(axis);
    let z = spec_fx_add(FX_ONE as int, spec_fx_mul(u, spec_fx_sub(spec_fx_cos(alpha), FX_ONE as int)));
    let radius = spec_fx_sqrt(spec_fx_sub(FX_ONE as int, spec_fx_mul(z, z)));
    let x = spec_fx_mul(radius, spec_fx_cos(phi));
    let y = spec_fx_mul(radius, spec_fx_sin(phi));
    spec_frame_dir(basis, x, y, z)
}

/// The frame of the canonical normal, the positive z axis, is computed
/// exactly: x = (0, -1, 0), y = (1, 0, 0), z = (0, 0, 1).
pub proof fn lemma_canonical_basis()
    ensures
        spec_basis_from_normal(SpecVec3 { x: 0, y: 0, z: FX_ONE as int }) == (SpecBasis {
            x: SpecVec3 { x: 0, y: -FX_ONE as int, z: 0 },
            y: SpecVec3 { x: FX_ONE as int, y: 0, z: 0 },
            z: SpecVec3 { x: 0, y: 0, z: FX_ONE as int },
        }),
{
    let one = FX_ONE as int;
    let n = SpecVec3 { x: 0, y: 0, z: one };
    crate::fixed::lemma_fx_mul_zero(0);
    crate::fixed::lemma_fx_mul_zero(one);
    crate::fixed::lemma_fx_mul_by_one(one);
    crate::fixed::lemma_fx_mul_by_one(-one);
    let other = SpecVec3 { x: one, y: 0, z: 0 };
    let c = spec_v3_cross(other, n);
    assert(c == SpecVec3 { x: 0, y: -one, z: 0 });
    crate::fixed::lemma_fx_sqrt_one();
    let x_axis = spec_v3_normalize(c);
    assert(crate::math::spec_v3_magsq(c) == one);
    assert(x_axis == SpecVec3 { x: 0, y: -one, z: 0 });
    let y_axis = spec_v3_cross(n, x_axis);
    assert(y_axis == SpecVec3 { x: one, y: 0, z: 0 });
}

/// A cone of half-angle zero is degenerate: whatever the variates, the
/// sample is exactly the axis, for any axis whose fixed-point squared
/// magnitude is exactly one (normalization leaves such a vector untouched).
pub proof fn lemma_cone_degenerate_returns_axis(axis: SpecVec3, u: int, phi: int)
    requires
        crate::math::spec_v3_magsq(axis) == FX_ONE,
        spec_abs(axis.x) <= crate::fixed::FX_MAX,
        spec_abs(axis.y) <= crate::fixed::FX_MAX,
        spec_abs(axis.z) <= crate::fixed::FX_MAX,
    ensures
        spec_sample_cone(axis, 0, u, phi) == axis,
{
    let one = FX_ONE as int;
    crate::trig::lemma_cos_zero();

    // The local height is exactly one and the disk radius exactly zero.
    crate::fixed::lemma_fx_mul_zero(u);
    let z = spec_fx_add(one, spec_fx_mul(u, spec_fx_sub(spec_fx_cos(0), one)));
    assert(z == one);
    crate::fixed::lemma_fx_mul_by_one(one);
    let radius = spec_fx_sqrt(spec_fx_sub(one, spec_fx_mul(z, z)));
    assert(radius == 0);
    crate::fixed::lemma_fx_mul_zero(spec_fx_cos(phi));
    crate::fixed::lemma_fx_mul_zero(spec_fx_sin(phi));
    let x = spec_fx_mul(radius, spec_fx_cos(phi));
    let y = spec_fx_mul(radius, spec_fx_sin(phi));
    assert(x == 0 && y == 0);

    // Mapping (0, 0, 1) through the frame reproduces the axis exactly.
    let basis = spec_basis_from_normal(axis);
    crate::fixed::lemma_fx_mul_zero(basis.x.x);
    crate::fixed::lemma_fx_mul_zero(basis.x.y);
    crate::fixed::lemma_fx_mul_zero(basis.x.z);
    crate::fixed::lemma_fx_mul_zero(basis.y.x);
    crate::fixed::lemma_fx_mul_zero(basis.y.y);
    crate::fixed::lemma_fx_mul_zero(basis.y.z);
    crate::fixed::lemma_fx_mul_by_one(axis.x);
    crate::fixed::lemma_fx_mul_by_one(axis.y);
    crate::fixed::lemma_fx_mul_by_one(axis.z);
    let combined = spec_v3_add(
        spec_v3_add(spec_v3_mul(basis.x, x), spec_v3_mul(basis.y, y)),
        spec_v3_mul(basis.z, z),
    );
    assert(combined == axis);

    // Normalizing a vector of squared magnitude exactly one is the identity.
    crate::fixed::lemma_fx_sqrt_one();
    assert(spec_v3_normalize(combined) == axis);
}

/// Hemisphere samples never point below the surface: for the canonical
/// normal (the positive z axis, where the frame is exact), the sampled
/// direction's z component, its cosine with the normal, is nonnegative for
/// every pair of variates.
pub proof fn lemma_hemisphere_above_plane(r_squared: int, phi: int)
    requires
        0 <= r_squared < FX_ONE,
    ensures
        ({
            let n = SpecVec3 { x: 0, y: 0, z: FX_ONE as int };
            let d = spec_sample_hemisphere(n, r_squared, phi);
            d.z >= 0 && crate::math::spec_v3_dot(d, n) >= 0
        }),
{
    let one = FX_ONE as int;
    let n = SpecVec3 { x: 0, y: 0, z: one };
    lemma_canonical_basis();
    let basis = spec_basis_from_normal(n);

    // The local height is nonnegative, so the mapped z component is too.
    crate::fixed::lemma_fx_sqrt_spec(r_squared);
    let radius = spec_fx_sqrt(r_squared);
    let xs = spec_fx_mul(radius, spec_fx_cos(phi));
    let ys = spec_fx_mul(radius, spec_fx_sin(phi));
    crate::fixed::lemma_fx_sqrt_spec(spec_fx_sub(one, r_squared));
    crate::fixed::lemma_fx_sqrt_le_one(spec_fx_sub(one, r_squared));
    let zc = spec_fx_sqrt(spec_fx_sub(one, r_squared));
    assert(0 <= zc <= one);

    crate::fixed::lemma_fx_mul_zero(xs);
    crate::fixed::lemma_fx_mul_zero(ys);
    crate::fixed::lemma_fx_mul_by_one(zc);
    let combined = spec_v3_add(
        spec_v3_add(spec_v3_mul(basis.x, xs), spec_v3_mul(basis.y, ys)),
        spec_v3_mul(basis.z, zc),
    );
    assert(combined.z == zc);

    let d = spec_v3_normalize(combined);
    let msq = crate::math::spec_v3_magsq(combined);
    if msq < 1 {
        assert(d.z == one);
    } else {
        let mag = spec_fx_sqrt(msq);
        crate::fixed::lemma_fx_sqrt_spec(msq);
        assert(mag > 0) by {
            if mag == 0 {
                assert((0 + 1) * (0 + 1) > msq * one);
                assert(false) by (nonlinear_arith)
                    requires
                        msq >= 1,
                        one == 65536,
                        (0 + 1) * (0 + 1) > msq * one,
                ;
            }
        }
        crate::fixed::lemma_fx_div_nonneg(zc, mag);
        assert(d.z >= 0);
    }
    crate::fixed::lemma_fx_mul_zero(d.x);
    crate::fixed::lemma_fx_mul_zero(d.y);
    crate::fixed::lemma_fx_mul_by_one(d.z);
    assert(crate::math::spec_v3_dot(d, n) == d.z);
}

/// The full-sphere cone (half-angle pi) spans both hemispheres,
/// deterministically in the first variate: the local height is exactly
/// `1 - 2u`, and, for the canonical +z axis, the sampled direction's cosine
/// with the axis keeps that sign — except that a sample whose combination
/// rounds to nothing renormalizes to the axis itself.
pub proof fn lemma_cone_full_sphere_spans(u: int, phi: int)
    requires
        0 <= u < FX_ONE,
    ensures
        spec_fx_add(
            FX_ONE as int,
            spec_fx_mul(u, spec_fx_sub(spec_fx_cos(crate::trig::FX_PI as int), FX_ONE as int)),
        ) == FX_ONE - 2 * u,
        ({
            let axis = SpecVec3 { x: 0, y: 0, z: FX_ONE as int };
            let d = spec_sample_cone(axis, crate::trig::FX_PI as int, u, phi);
            &&& u <= 32768 ==> crate::math::spec_v3_dot(d, axis) >= 0
            &&& u >= 32768 ==> crate::math::spec_v3_dot(d, axis) <= 0 || d == axis
        }),
{
    let one = FX_ONE as int;
    let axis = SpecVec3 { x: 0, y: 0, z: one };
    crate::trig::lemma_cos_pi();

    // The local height 1 + u * (cos(pi) - 1) is exactly 1 - 2u.
    let drop = spec_fx_sub(-one, one);
    assert(drop == -2 * one);
    assert(spec_fx_mul(u, drop) == -2 * u) by {
        assert(u * (-2 * one) == -((2 * u) * one)) by (nonlinear_arith);
        crate::fixed::lemma_tdiv_neg((2 * u) * one, one);
        crate::fixed::lemma_fx_mul_by_one(2 * u);
        assert((2 * u) * one == u * (2 * one)) by (nonlinear_arith);
    }
    let z = one - 2 * u;
    assert(spec_fx_add(one, spec_fx_mul(u, drop)) == z);

    // The mapped z component equals the local height exactly.
    lemma_canonical_basis();
    let basis = spec_basis_from_normal(axis);
    let radius = spec_fx_sqrt(spec_fx_sub(one, spec_fx_mul(z, z)));
    let xs = spec_fx_mul(radius, spec_fx_cos(phi));
    let ys = spec_fx_mul(radius, spec_fx_sin(phi));
    crate::fixed::lemma_fx_mul_zero(xs);
    crate::fixed::lemma_fx_mul_zero(ys);
    crate::fixed::lemma_fx_mul_by_one(z);
    let combined = spec_v3_add(
        spec_v3_add(spec_v3_mul(basis.x, xs), spec_v3_mul(basis.y, ys)),
        spec_v3_mul(basis.z, z),
    );
    assert(combined.z == z);

    // Dividing by the positive magnitude keeps the height's sign; the
    // fallback of a degenerate combination is the axis itself.
    let d = spec_v3_normalize(combined);
    let msq = crate::math::spec_v3_magsq(combined);
    if msq >= 1 {
        let mag = spec_fx_sqrt(msq);
        crate::fixed::lemma_fx_sqrt_spec(msq);
        assert(mag > 0) by {
            if mag == 0 {
                assert((0 + 1) * (0 + 1) > msq * one);
                assert(false) by (nonlinear_arith)
                    requires
                        msq >= 1,
                        one == 65536,
                        (0 + 1) * (0 + 1) > msq * one,
                ;
            }
        }
        if z >= 0 {
            crate::fixed::lemma_fx_div_nonneg(z, mag);
        } else {
            crate::fixed::lemma_fx_div_nonpos(z, mag);
        }
    }
    crate::fixed::lemma_fx_mul_zero(d.x);
    crate::fixed::lemma_fx_mul_zero(d.y);
    crate::fixed::lemma_fx_mul_by_one(d.z);
    assert(crate::math::spec_v3_dot(d, axis) == d.z);
}

/// Map local frame coordinates to a world direction and renormalize.
fn frame_dir(basis: &Basis, x: i64, y: i64, z: i64) -> (r: Unit3)
    ensures
        r@ == spec_frame_dir(basis@, x as int, y as int, z as int),
{
    normalize(basis.x.mul(x).add(basis.y.mul(y)).add(basis.z.mul(z)))
}

/// Sample the cosine-weighted hemisphere around `normal`.
pub fn sample_cos_weighted_hemisphere(normal: Unit3, r_squared: i64, phi: i64) -> (r: Unit3)
    ensures
        r@ == spec_sample_hemisphere(normal@, r_squared as int, phi as int),
{
    let basis = Basis::from_normal(normal);

    let radius = fx_sqrt(r_squared);
    let x = fx_mul(radius, fx_cos(phi));
    let y = fx_mul(radius, fx_sin(phi));
    let z = fx_sqrt(fx_sub(FX_ONE, r_squared));

    frame_dir(&basis, x, y, z)
}

/// Sample the cone of half-angle `alpha` around `normal` uniformly by solid
/// angle.
pub fn sample_uniform_cone(normal: Unit3, alpha: i64, u: i64, phi: i64) -> (r: Unit3)
    ensures
        r@ == spec_sample_cone(normal@, alpha as int, u as int, phi as int),
{
    let basis = Basis::from_normal(normal);

    let z = fx_add(FX_ONE, fx_mul(u, fx_sub(fx_cos(alpha), FX_ONE)));
    let radius = fx_sqrt(fx_sub(FX_ONE, fx_mul(z, z)));
    let x = fx_mul(radius, fx_cos(phi));
    let y = fx_mul(radius, fx_sin(phi));

    frame_dir(&basis, x, y, z)
}

} // verus!
