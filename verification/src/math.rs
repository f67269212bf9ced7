//! Vectors, unit vectors and rays over fixed-point scalars.
//!
//! The mathematical model of a vector is `SpecVec3`, a triple of unbounded
//! integers; every executable vector operation is specified exactly by a
//! `spec_v3_*` function composed from the fixed-point scalar specs.

use vstd::prelude::*;

use crate::fixed::{fx_add, fx_div, fx_mul, fx_neg, fx_sqrt, fx_sub};
use crate::fixed::{
    spec_abs, spec_fx_add, spec_fx_div, spec_fx_mul, spec_fx_neg, spec_fx_sqrt, spec_fx_sub,
    FX_ONE,
};

verus! {

/// Distances below this threshold (about 2.4e-4 as a real value) count as
/// zero: it rejects self-intersections and guards near-zero cosines.
pub const EPSILON: i64 = 16;

/// A 3-component fixed-point vector.
#[derive(Debug, Clone, Copy, PartialEq, Eq, Structural)]
pub struct Vec3 {
    pub x: i64,
    pub y: i64,
    pub z: i64,
}

/// The mathematical value of a `Vec3`: three unbounded integers, each the
/// fixed-point representation of one real component.
pub ghost struct SpecVec3 {
    pub x: int,
    pub y: int,
    pub z: int,
}

impl View for Vec3 {
    type V = SpecVec3;

    open spec fn view(&self) -> SpecVec3 {
        SpecVec3 { x: self.x as int, y: self.y as int, z: self.z as int }
    }
}

/// The zero vector.
pub open spec fn spec_v3_zero() -> SpecVec3 {
    SpecVec3 { x: 0, y: 0, z: 0 }
}

/// Componentwise sum.
pub open spec fn spec_v3_add(a: SpecVec3, b: SpecVec3) -> SpecVec3 {
    SpecVec3 {
        x: spec_fx_add(a.x, b.x),
        y: spec_fx_add(a.y, b.y),
        z: spec_fx_add(a.z, b.z),
    }
}

/// Componentwise difference.
pub open spec fn spec_v3_sub(a: SpecVec3, b: SpecVec3) -> SpecVec3 {
    SpecVec3 {
        x: spec_fx_sub(a.x, b.x),
        y: spec_fx_sub(a.y, b.y),
        z: spec_fx_sub(a.z, b.z),
    }
}

/// Componentwise negation.
pub open spec fn spec_v3_neg(a: SpecVec3) -> SpecVec3 {
    SpecVec3 { x: spec_fx_neg(a.x), y: spec_fx_neg(a.y), z: spec_fx_neg(a.z) }
}

/// Scalar multiple.
pub open spec fn spec_v3_mul(a: SpecVec3, s: int) -> SpecVec3 {
    SpecVec3 { x: spec_fx_mul(a.x, s), y: spec_fx_mul(a.y, s), z: spec_fx_mul(a.z, s) }
}

/// Scalar quotient.
pub open spec fn spec_v3_div(a: SpecVec3, s: int) -> SpecVec3 {
    SpecVec3 { x: spec_fx_div(a.x, s), y: spec_fx_div(a.y, s), z: spec_fx_div(a.z, s) }
}

/// Componentwise product (used for filtering radiance through an albedo).
pub open spec fn spec_v3_cmul(a: SpecVec3, b: SpecVec3) -> SpecVec3 {
    SpecVec3 {
        x: spec_fx_mul(a.x, b.x),
        y: spec_fx_mul(a.y, b.y),
        z: spec_fx_mul(a.z, b.z),
    }
}

/// Dot product, summed left to right.
pub open spec fn spec_v3_dot(a: SpecVec3, b: SpecVec3) -> int {
    spec_fx_add(
        spec_fx_add(spec_fx_mul(a.x, b.x), spec_fx_mul(a.y, b.y)),
        spec_fx_mul(a.z, b.z),
    )
}

/// Squared magnitude.
pub open spec fn spec_v3_magsq(a: SpecVec3) -> int {
    spec_v3_dot(a, a)
}

/// Magnitude.
pub open spec fn spec_v3_mag(a: SpecVec3) -> int {
    spec_fx_sqrt(spec_v3_magsq(a))
}

/// Cross product.
pub open spec fn spec_v3_cross(a: SpecVec3, b: SpecVec3) -> SpecVec3 {
    SpecVec3 {
        x: spec_fx_sub(spec_fx_mul(a.y, b.z), spec_fx_mul(a.z, b.y)),
        y: spec_fx_sub(spec_fx_mul(a.z, b.x), spec_fx_mul(a.x, b.z)),
        z: spec_fx_sub(spec_fx_mul(a.x, b.y), spec_fx_mul(a.y, b.x)),
    }
}

/// Normalization: divide by the magnitude, or fall back to the z axis when
/// the squared magnitude rounds to zero (callers that can rule the
/// degenerate case out get the non-fallback branch unconditionally).
pub open spec fn spec_v3_normalize(a: SpecVec3) -> SpecVec3 {
    let msq = spec_v3_magsq(a);
    if msq < 1 {
        SpecVec3 { x: 0, y: 0, z: FX_ONE as int }
    } else {
        spec_v3_div(a, spec_fx_sqrt(msq))
    }
}

/// Relative approximate equality of two fixed-point scalars, within one part
/// in 4096 of the first argument's magnitude.
pub open spec fn spec_nearly_equal(a: int, b: int) -> bool {
    let d = spec_fx_sub(a, b);
    let da = if d < 0 {
        spec_fx_neg(d)
    } else {
        d
    };
    let aa = if a < 0 {
        spec_fx_neg(a)
    } else {
        a
    };
    da < spec_fx_mul(EPSILON as int, aa)
}

/// Relative approximate equality of two fixed-point scalars.
pub fn nearly_equal(a: i64, b: i64) -> (r: bool)
    ensures
        r == spec_nearly_equal(a as int, b as int),
{
    let d = fx_sub(a, b);
    let da = if d < 0 {
        fx_neg(d)
    } else {
        d
    };
    let aa = if a < 0 {
        fx_neg(a)
    } else {
        a
    };
    da < fx_mul(EPSILON, aa)
}

impl Vec3 {
    /// Componentwise sum.
    pub fn add(self, rhs: Vec3) -> (r: Vec3)
        ensures
            r@ == spec_v3_add(self@, rhs@),
    {
        Vec3 { x: fx_add(self.x, rhs.x), y: fx_add(self.y, rhs.y), z: fx_add(self.z, rhs.z) }
    }

    /// Componentwise difference.
    pub fn sub(self, rhs: Vec3) -> (r: Vec3)
        ensures
            r@ == spec_v3_sub(self@, rhs@),
    {
        Vec3 { x: fx_sub(self.x, rhs.x), y: fx_sub(self.y, rhs.y), z: fx_sub(self.z, rhs.z) }
    }

    /// Componentwise negation.
    pub fn neg(self) -> (r: Vec3)
        ensures
            r@ == spec_v3_neg(self@),
    {
        Vec3 { x: fx_neg(self.x), y: fx_neg(self.y), z: fx_neg(self.z) }
    }

    /// Scalar multiple.
    pub fn mul(self, rhs: i64) -> (r: Vec3)
        ensures
            r@ == spec_v3_mul(self@, rhs as int),
    {
        Vec3 { x: fx_mul(self.x, rhs), y: fx_mul(self.y, rhs), z: fx_mul(self.z, rhs) }
    }

    /// Scalar quotient.
    pub fn div(self, rhs: i64) -> (r: Vec3)
        ensures
            r@ == spec_v3_div(self@, rhs as int),
    {
        Vec3 { x: fx_div(self.x, rhs), y: fx_div(self.y, rhs), z: fx_div(self.z, rhs) }
    }

    /// Componentwise product.
    pub fn component_mul(self, rhs: Vec3) -> (r: Vec3)
        ensures
            r@ == spec_v3_cmul(self@, rhs@),
    {
        Vec3 { x: fx_mul(self.x, rhs.x), y: fx_mul(self.y, rhs.y), z: fx_mul(self.z, rhs.z) }
    }

    /// Dot product.
    pub fn dot(self, rhs: Vec3) -> (r: i64)
        ensures
            r == spec_v3_dot(self@, rhs@),
    {
        fx_add(fx_add(fx_mul(self.x, rhs.x), fx_mul(self.y, rhs.y)), fx_mul(self.z, rhs.z))
    }

    /// Cross product.
    pub fn cross(self, rhs: Vec3) -> (r: Vec3)
        ensures
            r@ == spec_v3_cross(self@, rhs@),
    {
        Vec3 {
            x: fx_sub(fx_mul(self.y, rhs.z), fx_mul(self.z, rhs.y)),
            y: fx_sub(fx_mul(self.z, rhs.x), fx_mul(self.x, rhs.z)),
            z: fx_sub(fx_mul(self.x, rhs.y), fx_mul(self.y, rhs.x)),
        }
    }

    /// Squared magnitude.
    pub fn mag_squared(self) -> (r: i64)
        ensures
            r == spec_v3_magsq(self@),
    {
        self.dot(self)
    }

    /// Magnitude.
    pub fn mag(self) -> (r: i64)
        ensures
            r == spec_v3_mag(self@),
    {
        fx_sqrt(self.mag_squared())
    }

    /// Normalize; the precondition rules out the vectors whose squared
    /// magnitude rounds to zero (normalizing those is a programming error).
    pub fn to_unit(self) -> (r: Unit3)
        requires
            spec_v3_magsq(self@) >= 1,
        ensures
            r@ == spec_v3_normalize(self@),
            r@ == spec_v3_div(self@, spec_fx_sqrt(spec_v3_magsq(self@))),
    {
        normalize(self)
    }
}

impl Default for Vec3 {
    /// The zero vector.
    fn default() -> (r: Vec3)
        ensures
            r@ == spec_v3_zero(),
    {
        Vec3 { x: 0, y: 0, z: 0 }
    }
}

/// A direction: a vector produced by normalization (or by the checked
/// constructor, which demands a squared magnitude that rounds to one).
#[derive(Debug, Clone, Copy, PartialEq, Eq, Structural)]
pub struct Unit3 {
    vec: Vec3,
}

impl View for Unit3 {
    type V = SpecVec3;

    closed spec fn view(&self) -> SpecVec3 {
        self.vec@
    }
}

/// Normalization, total: vectors whose squared magnitude rounds to zero map
/// to the z axis; every other vector is divided by its magnitude.
pub fn normalize(v: Vec3) -> (r: Unit3)
    ensures
        r@ == spec_v3_normalize(v@),
{
    let msq = v.mag_squared();
    if msq < 1 {
        Unit3 { vec: Vec3 { x: 0, y: 0, z: FX_ONE } }
    } else {
        Unit3 { vec: v.div(fx_sqrt(msq)) }
    }
}

impl Unit3 {
    /// Wrap a vector already known to have (fixed-point) magnitude exactly
    /// one; such a vector is untouched by normalization.
    pub fn from_unit_vec3(vec: Vec3) -> (r: Unit3)
        requires
            spec_v3_magsq(vec@) == FX_ONE,
        ensures
            r@ == vec@,
    {
        Unit3 { vec }
    }

    /// The underlying vector.
    pub fn as_vec3(&self) -> (r: Vec3)
        ensures
            r@ == self@,
    {
        self.vec
    }

    /// First component.
    pub fn x(&self) -> (r: i64)
        ensures
            r == self@.x,
    {
        self.vec.x
    }

    /// Second component.
    pub fn y(&self) -> (r: i64)
        ensures
            r == self@.y,
    {
        self.vec.y
    }

    /// Third component.
    pub fn z(&self) -> (r: i64)
        ensures
            r == self@.z,
    {
        self.vec.z
    }

    /// The opposite direction. Negation is exact in fixed point, so the
    /// result is as close to unit length as the argument; no renormalization
    /// happens.
    pub fn flip(self) -> (r: Unit3)
        ensures
            r@ == spec_v3_neg(self@),
    {
        Unit3 { vec: self.vec.neg() }
    }
}

/// Negating the left operand negates a dot product exactly, as long as the
/// left operand's components are in the representable range (a unit vector's
/// always are).
pub proof fn lemma_dot_neg_left(a: SpecVec3, b: SpecVec3)
    requires
        spec_abs(a.x) <= crate::fixed::FX_MAX,
        spec_abs(a.y) <= crate::fixed::FX_MAX,
        spec_abs(a.z) <= crate::fixed::FX_MAX,
    ensures
        spec_v3_dot(spec_v3_neg(a), b) == -spec_v3_dot(a, b),
{
    crate::fixed::lemma_fx_mul_neg_left(a.x, b.x);
    crate::fixed::lemma_fx_mul_neg_left(a.y, b.y);
    crate::fixed::lemma_fx_mul_neg_left(a.z, b.z);
}

/// Every component of the vector is nonnegative.
pub open spec fn spec_v3_nonneg(v: SpecVec3) -> bool {
    v.x >= 0 && v.y >= 0 && v.z >= 0
}

/// A nonnegative vector scaled by a nonnegative scalar stays nonnegative.
pub proof fn lemma_v3_mul_nonneg(v: SpecVec3, s: int)
    requires
        spec_v3_nonneg(v),
        s >= 0,
    ensures
        spec_v3_nonneg(spec_v3_mul(v, s)),
{
    crate::fixed::lemma_fx_mul_nonneg(v.x, s);
    crate::fixed::lemma_fx_mul_nonneg(v.y, s);
    crate::fixed::lemma_fx_mul_nonneg(v.z, s);
}

/// A componentwise product of nonnegative vectors stays nonnegative.
pub proof fn lemma_v3_cmul_nonneg(a: SpecVec3, b: SpecVec3)
    requires
        spec_v3_nonneg(a),
        spec_v3_nonneg(b),
    ensures
        spec_v3_nonneg(spec_v3_cmul(a, b)),
{
    crate::fixed::lemma_fx_mul_nonneg(a.x, b.x);
    crate::fixed::lemma_fx_mul_nonneg(a.y, b.y);
    crate::fixed::lemma_fx_mul_nonneg(a.z, b.z);
}

/// The zero vector scaled by anything is zero.
pub proof fn lemma_v3_mul_zero(s: int)
    ensures
        spec_v3_mul(spec_v3_zero(), s) == spec_v3_zero(),
{
    crate::fixed::lemma_fx_mul_zero(s);
}

/// A componentwise product with the zero vector is zero.
pub proof fn lemma_v3_cmul_zero_right(a: SpecVec3)
    ensures
        spec_v3_cmul(a, spec_v3_zero()) == spec_v3_zero(),
{
    crate::fixed::lemma_fx_mul_zero(a.x);
    crate::fixed::lemma_fx_mul_zero(a.y);
    crate::fixed::lemma_fx_mul_zero(a.z);
}

/// A nonnegative vector divided by a positive scalar stays nonnegative.
pub proof fn lemma_v3_div_nonneg(v: SpecVec3, s: int)
    requires
        spec_v3_nonneg(v),
        s > 0,
    ensures
        spec_v3_nonneg(spec_v3_div(v, s)),
{
    crate::fixed::lemma_fx_div_nonneg(v.x, s);
    crate::fixed::lemma_fx_div_nonneg(v.y, s);
    crate::fixed::lemma_fx_div_nonneg(v.z, s);
}

/// The zero vector divided by anything is zero.
pub proof fn lemma_v3_div_zero(s: int)
    ensures
        spec_v3_div(spec_v3_zero(), s) == spec_v3_zero(),
{
    assert(0 * (crate::fixed::FX_ONE as int) == 0) by (nonlinear_arith);
    if s != 0 {
        vstd::arithmetic::div_mod::lemma_div_basics(crate::fixed::spec_abs(s));
    }
}

/// Adding the zero vector changes nothing, for representable components.
pub proof fn lemma_v3_add_zero(v: SpecVec3)
    requires
        spec_abs(v.x) <= crate::fixed::FX_MAX,
        spec_abs(v.y) <= crate::fixed::FX_MAX,
        spec_abs(v.z) <= crate::fixed::FX_MAX,
    ensures
        spec_v3_add(v, spec_v3_zero()) == v,
{
}

/// For a vector with components at most 2^28 in magnitude, the computed
/// squared magnitude suffers no saturation: it is the truncated sum of the
/// three squared components, and brackets the exact sum within three
/// truncation errors.
proof fn lemma_magsq_exact(v: SpecVec3)
    requires
        spec_abs(v.x) <= 0x10000000,
        spec_abs(v.y) <= 0x10000000,
        spec_abs(v.z) <= 0x10000000,
    ensures
        ({
            let s = crate::fixed::FX_ONE as int;
            let q = spec_v3_magsq(v);
            let exact = v.x * v.x + v.y * v.y + v.z * v.z;
            &&& q == v.x * v.x / s + v.y * v.y / s + v.z * v.z / s
            &&& q * s <= exact < q * s + 3 * s
            &&& 0 <= q <= 0x30000000000
        }),
{
    let s = crate::fixed::FX_ONE as int;
    lemma_square_term(v.x);
    lemma_square_term(v.y);
    lemma_square_term(v.z);
    let qx = v.x * v.x / s;
    let qy = v.y * v.y / s;
    let qz = v.z * v.z / s;
    assert(spec_v3_magsq(v) == qx + qy + qz);
    assert((qx + qy + qz) * s == qx * s + qy * s + qz * s) by (nonlinear_arith);
}

/// One squared component: the truncated square is exact up to one unit, and
/// small enough not to saturate.
proof fn lemma_square_term(c: int)
    requires
        spec_abs(c) <= 0x10000000,
    ensures
        ({
            let s = crate::fixed::FX_ONE as int;
            &&& crate::fixed::spec_fx_mul(c, c) == c * c / s
            &&& 0 <= c * c / s <= 0x10000000000
            &&& (c * c / s) * s <= c * c < (c * c / s) * s + s
        }),
{
    let s = crate::fixed::FX_ONE as int;
    assert(0 <= c * c <= 0x10000000 * 0x10000000) by (nonlinear_arith)
        requires
            spec_abs(c) <= 0x10000000,
    ;
    assert(0 <= c * c / s <= 0x10000000000) by {
        vstd::arithmetic::div_mod::lemma_div_pos_is_pos(c * c, s);
        vstd::arithmetic::div_mod::lemma_div_is_ordered(c * c, 0x10000000int * 0x10000000int, s);
    }
    assert(c * c == s * (c * c / s) + c * c % s) by {
        vstd::arithmetic::div_mod::lemma_fundamental_div_mod(c * c, s);
    }
    assert(0 <= c * c % s < s) by {
        vstd::arithmetic::div_mod::lemma_mod_bound(c * c, s);
    }
    assert(s * (c * c / s) == (c * c / s) * s) by (nonlinear_arith);
}

/// One normalized component: dividing by the magnitude neither saturates nor
/// strays by more than one truncation step from the exact quotient.
proof fn lemma_div_comp(vc: int, mag: int)
    requires
        16384 <= mag < 0x40000000,
        spec_abs(vc) <= mag + 7,
        spec_abs(vc) <= 0x10000000,
    ensures
        ({
            let s = crate::fixed::FX_ONE as int;
            let r = crate::fixed::spec_fx_div(vc, mag);
            &&& spec_abs(r) <= s + 28
            &&& (r * r) * (mag * mag) <= (vc * vc) * (s * s)
            &&& (r * r) * (mag * mag) >= (vc * vc) * (s * s) - 2 * spec_abs(vc) * s * mag
        }),
{
    let s = crate::fixed::FX_ONE as int;
    let u = spec_abs(vc) * s;
    assert(u >= 0) by (nonlinear_arith)
        requires
            u == spec_abs(vc) * s,
            spec_abs(vc) >= 0,
            s > 0,
    ;
    let ra = u / mag;
    assert(0 <= ra) by {
        vstd::arithmetic::div_mod::lemma_div_pos_is_pos(u, mag);
    }
    assert(u == mag * ra + u % mag && 0 <= u % mag < mag) by {
        vstd::arithmetic::div_mod::lemma_fundamental_div_mod(u, mag);
        vstd::arithmetic::div_mod::lemma_mod_bound(u, mag);
    }
    assert(ra * mag <= u < ra * mag + mag) by (nonlinear_arith)
        requires
            u == mag * ra + u % mag,
            0 <= u % mag < mag,
    ;

    // The executable quotient is plus or minus `ra`, unclamped.
    assert(spec_abs(vc * s) == spec_abs(vc) * s) by (nonlinear_arith)
        requires
            s > 0,
    ;
    assert(ra <= s + 28) by (nonlinear_arith)
        requires
            ra * mag <= u,
            u == spec_abs(vc) * s,
            spec_abs(vc) <= mag + 7,
            mag >= 16384,
            s == 65536,
    ;
    let r = crate::fixed::spec_fx_div(vc, mag);
    assert(r == ra || r == -ra);
    assert(r * r == ra * ra) by (nonlinear_arith)
        requires
            r == ra || r == -ra,
    ;

    // Upper: (ra * mag)^2 <= u^2.
    assert((ra * ra) * (mag * mag) <= u * u) by (nonlinear_arith)
        requires
            0 <= ra * mag <= u,
    ;
    assert(u * u == (vc * vc) * (s * s)) by (nonlinear_arith)
        requires
            u == spec_abs(vc) * s,
            spec_abs(vc) == vc || spec_abs(vc) == -vc,
    ;

    // Lower: ra * mag > u - mag, so squaring loses at most 2 * u * mag.
    assert((ra * ra) * (mag * mag) >= u * u - 2 * u * mag) by (nonlinear_arith)
        requires
            ra * mag + mag > u,
            0 <= ra * mag,
            0 <= u,
            0 < mag,
    ;
    assert(2 * u * mag == 2 * spec_abs(vc) * s * mag) by (nonlinear_arith)
        requires
            u == spec_abs(vc) * s,
    ;
}

/// Normalization yields a direction of unit length within tolerance: for a
/// vector with components at most 2^28 (4096.0) and computed squared
/// magnitude at least 2^12 (one sixteenth), the squared magnitude of the
/// normalized vector is within 1024 (one 64th) of one.
pub proof fn lemma_normalize_near_unit(v: SpecVec3)
    requires
        spec_abs(v.x) <= 0x10000000,
        spec_abs(v.y) <= 0x10000000,
        spec_abs(v.z) <= 0x10000000,
        spec_v3_magsq(v) >= 4096,
    ensures
        spec_abs(spec_v3_magsq(spec_v3_normalize(v)) - crate::fixed::FX_ONE) <= 1024,
{
    let s = crate::fixed::FX_ONE as int;
    let msq = spec_v3_magsq(v);
    let q = v.x * v.x + v.y * v.y + v.z * v.z;
    lemma_magsq_exact(v);

    // The magnitude brackets the scaled squared magnitude.
    let mag = crate::fixed::spec_fx_sqrt(msq);
    crate::fixed::lemma_fx_sqrt_spec(msq);
    assert(mag * mag <= msq * s < (mag + 1) * (mag + 1));
    assert(mag >= 16384) by (nonlinear_arith)
        requires
            msq * s < (mag + 1) * (mag + 1),
            msq >= 4096,
            s == 65536,
            mag >= 0,
    ;
    assert(mag < 0x40000000) by (nonlinear_arith)
        requires
            mag * mag <= msq * s,
            msq <= 0x30000000000,
            s == 65536,
            mag >= 0,
    ;

    // Each component is within a few steps of the magnitude.
    assert(v.x * v.x <= q && v.y * v.y <= q && v.z * v.z <= q) by (nonlinear_arith)
        requires
            q == v.x * v.x + v.y * v.y + v.z * v.z,
    ;
    assert(q < msq * s + 3 * s);
    assert(msq * s < (mag + 1) * (mag + 1));
    assert(spec_abs(v.x) <= mag + 7 && spec_abs(v.y) <= mag + 7 && spec_abs(v.z) <= mag + 7)
        by (nonlinear_arith)
        requires
            v.x * v.x <= q && v.y * v.y <= q && v.z * v.z <= q,
            q < (mag + 1) * (mag + 1) + 3 * s,
            s == 65536,
            mag >= 16384,
    ;

    lemma_div_comp(v.x, mag);
    lemma_div_comp(v.y, mag);
    lemma_div_comp(v.z, mag);
    let r = spec_v3_normalize(v);
    assert(r == spec_v3_div(v, mag));
    let rx = crate::fixed::spec_fx_div(v.x, mag);
    let ry = crate::fixed::spec_fx_div(v.y, mag);
    let rz = crate::fixed::spec_fx_div(v.z, mag);

    lemma_magsq_exact(r);
    let out = spec_v3_magsq(r);
    let rq = rx * rx + ry * ry + rz * rz;
    assert(out * s <= rq < out * s + 3 * s);

    // Upper bound: the scaled output cannot exceed the scaled input.
    assert(rq * (mag * mag) <= q * (s * s)) by (nonlinear_arith)
        requires
            (rx * rx) * (mag * mag) <= (v.x * v.x) * (s * s),
            (ry * ry) * (mag * mag) <= (v.y * v.y) * (s * s),
            (rz * rz) * (mag * mag) <= (v.z * v.z) * (s * s),
            rq == rx * rx + ry * ry + rz * rz,
            q == v.x * v.x + v.y * v.y + v.z * v.z,
    ;
    assert(out <= s + 1024) by (nonlinear_arith)
        requires
            out * s <= rq,
            rq * (mag * mag) <= q * (s * s),
            q < msq * s + 3 * s,
            msq * s < (mag + 1) * (mag + 1),
            mag >= 16384,
            s == 65536,
            out >= 0,
    ;

    // Lower bound: each truncation loses at most 2 * |component| * s * mag;
    // distribute the products, then the three component bounds add up.
    let m2 = mag * mag;
    let s2 = s * s;
    assert(rq * m2 == (rx * rx) * m2 + (ry * ry) * m2 + (rz * rz) * m2) by {
        vstd::arithmetic::mul::lemma_mul_is_distributive_add_other_way(
            m2,
            rx * rx + ry * ry,
            rz * rz,
        );
        vstd::arithmetic::mul::lemma_mul_is_distributive_add_other_way(m2, rx * rx, ry * ry);
    }
    assert(q * s2 == (v.x * v.x) * s2 + (v.y * v.y) * s2 + (v.z * v.z) * s2) by {
        vstd::arithmetic::mul::lemma_mul_is_distributive_add_other_way(
            s2,
            v.x * v.x + v.y * v.y,
            v.z * v.z,
        );
        vstd::arithmetic::mul::lemma_mul_is_distributive_add_other_way(
            s2,
            v.x * v.x,
            v.y * v.y,
        );
    }
    assert(2 * (spec_abs(v.x) + spec_abs(v.y) + spec_abs(v.z)) * s * mag == 2 * spec_abs(v.x)
        * s * mag + 2 * spec_abs(v.y) * s * mag + 2 * spec_abs(v.z) * s * mag)
        by (nonlinear_arith);
    assert(rq * (mag * mag) >= q * (s * s) - 2 * (spec_abs(v.x) + spec_abs(v.y) + spec_abs(
        v.z,
    )) * s * mag);
    assert(out >= s - 1024) by (nonlinear_arith)
        requires
            rq < out * s + 3 * s,
            rq * (mag * mag) >= q * (s * s) - 2 * (spec_abs(v.x) + spec_abs(v.y) + spec_abs(
                v.z,
            )) * s * mag,
            q >= msq * s,
            msq * s >= mag * mag,
            spec_abs(v.x) <= mag + 7,
            spec_abs(v.y) <= mag + 7,
            spec_abs(v.z) <= mag + 7,
            mag >= 16384,
            s == 65536,
    ;
}

/// A ray: an origin and a unit direction.
#[derive(Debug, Clone, Copy, PartialEq, Eq, Structural)]
pub struct Ray {
    pub origin: Vec3,
    pub dir: Unit3,
}

/// The point at parameter `t` along a ray.
pub open spec fn spec_ray_interp(origin: SpecVec3, dir: SpecVec3, t: int) -> SpecVec3 {
    spec_v3_add(origin, spec_v3_mul(dir, t))
}

impl Ray {
    /// The point at parameter `t` along the ray.
    pub fn interp(&self, t: i64) -> (r: Vec3)
        ensures
            r@ == spec_ray_interp(self.origin@, self.dir@, t as int),
    {
        self.origin.add(self.dir.as_vec3().mul(t))
    }
}

} // verus!
