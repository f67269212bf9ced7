//! Fixed-point sine and cosine.
//!
//! Angles are fixed-point radians. Arguments are clamped into `[0, 2*pi]`
//! (every caller in this crate produces an angle in that range already),
//! reduced by quadrant to `[0, pi/2]`, and evaluated there with a truncated
//! Taylor polynomial; results are clamped into `[-1, 1]`.

use vstd::prelude::*;

use crate::fixed::{fx_divi, fx_mul, fx_neg, fx_sub, FX_ONE};
use crate::fixed::{spec_fx_divi, spec_fx_mul, spec_fx_neg, spec_fx_sub};

verus! {

/// pi, in fixed-point radians.
pub const FX_PI: i64 = 205887;

/// pi/2, in fixed-point radians.
pub const FX_HALF_PI: i64 = 102944;

/// 2*pi, in fixed-point radians.
pub const FX_TWO_PI: i64 = 411774;

/// Clamp an angle into `[0, 2*pi]`.
pub open spec fn spec_angle_clamp(x: int) -> int {
    if x < 0 {
        0
    } else if x > FX_TWO_PI {
        FX_TWO_PI as int
    } else {
        x
    }
}

/// Clamp a trig result into `[-1, 1]`.
pub open spec fn spec_unit_clamp(a: int) -> int {
    if a > FX_ONE {
        FX_ONE as int
    } else if a < -FX_ONE {
        -FX_ONE as int
    } else {
        a
    }
}

/// Cosine on the first quadrant:
/// 1 - x^2/2 * (1 - x^2/12 * (1 - x^2/30 * (1 - x^2/56))).
pub open spec fn spec_cos_quarter(x: int) -> int {
    let x2 = spec_fx_mul(x, x);
    let s3 = spec_fx_sub(FX_ONE as int, spec_fx_divi(x2, 56));
    let s2 = spec_fx_sub(FX_ONE as int, spec_fx_divi(spec_fx_mul(x2, s3), 30));
    let s1 = spec_fx_sub(FX_ONE as int, spec_fx_divi(spec_fx_mul(x2, s2), 12));
    spec_fx_sub(FX_ONE as int, spec_fx_divi(spec_fx_mul(x2, s1), 2))
}

/// Sine on the first quadrant:
/// x * (1 - x^2/6 * (1 - x^2/20 * (1 - x^2/42))).
pub open spec fn spec_sin_quarter(x: int) -> int {
    let x2 = spec_fx_mul(x, x);
    let s3 = spec_fx_sub(FX_ONE as int, spec_fx_divi(x2, 42));
    let s2 = spec_fx_sub(FX_ONE as int, spec_fx_divi(spec_fx_mul(x2, s3), 20));
    let s1 = spec_fx_sub(FX_ONE as int, spec_fx_divi(spec_fx_mul(x2, s2), 6));
    spec_fx_mul(x, s1)
}

/// Cosine of a fixed-point angle, by quadrant reduction.
pub open spec fn spec_fx_cos(x: int) -> int {
    let y = spec_angle_clamp(x);
    if y <= FX_HALF_PI {
        spec_unit_clamp(spec_cos_quarter(y))
    } else if y <= FX_PI {
        spec_unit_clamp(spec_fx_neg(spec_cos_quarter(FX_PI - y)))
    } else if y <= FX_PI + FX_HALF_PI {
        spec_unit_clamp(spec_fx_neg(spec_cos_quarter(y - FX_PI)))
    } else {
        spec_unit_clamp(spec_cos_quarter(FX_TWO_PI - y))
    }
}

/// Sine of a fixed-point angle, by quadrant reduction.
pub open spec fn spec_fx_sin(x: int) -> int {
    let y = spec_angle_clamp(x);
    if y <= FX_HALF_PI {
        spec_unit_clamp(spec_sin_quarter(y))
    } else if y <= FX_PI {
        spec_unit_clamp(spec_sin_quarter(FX_PI - y))
    } else if y <= FX_PI + FX_HALF_PI {
        spec_unit_clamp(spec_fx_neg(spec_sin_quarter(y - FX_PI)))
    } else {
        spec_unit_clamp(spec_fx_neg(spec_sin_quarter(FX_TWO_PI - y)))
    }
}

/// The cosine of the zero angle is exactly one: a perfectly glossy mirror's
/// degenerate cone keeps its axis unchanged.
pub proof fn lemma_cos_zero()
    ensures
        spec_fx_cos(0) == FX_ONE,
        spec_cos_quarter(0) == FX_ONE,
{
    crate::fixed::lemma_fx_mul_zero(0);
    let x2 = spec_fx_mul(0, 0);
    assert(x2 == 0);
    let s3 = spec_fx_sub(FX_ONE as int, spec_fx_divi(x2, 56));
    assert(s3 == FX_ONE);
    crate::fixed::lemma_fx_mul_zero(s3);
    let s2 = spec_fx_sub(FX_ONE as int, spec_fx_divi(spec_fx_mul(x2, s3), 30));
    assert(s2 == FX_ONE);
    crate::fixed::lemma_fx_mul_zero(s2);
    let s1 = spec_fx_sub(FX_ONE as int, spec_fx_divi(spec_fx_mul(x2, s2), 12));
    assert(s1 == FX_ONE);
    crate::fixed::lemma_fx_mul_zero(s1);
    assert(spec_cos_quarter(0) == FX_ONE);
}

/// The cosine of pi is exactly minus one: the full-sphere cone's local
/// height spans all the way down.
pub proof fn lemma_cos_pi()
    ensures
        spec_fx_cos(FX_PI as int) == -FX_ONE,
{
    lemma_cos_zero();
}

/// Clamp an angle into `[0, 2*pi]`.
fn angle_clamp(x: i64) -> (r: i64)
    ensures
        r == spec_angle_clamp(x as int),
        0 <= r <= FX_TWO_PI,
{
    if x < 0 {
        0
    } else if x > FX_TWO_PI {
        FX_TWO_PI
    } else {
        x
    }
}

/// Clamp a trig result into `[-1, 1]`.
fn unit_clamp(a: i64) -> (r: i64)
    ensures
        r == spec_unit_clamp(a as int),
        -FX_ONE <= r <= FX_ONE,
{
    if a > FX_ONE {
        FX_ONE
    } else if a < -FX_ONE {
        -FX_ONE
    } else {
        a
    }
}

/// First-quadrant cosine polynomial.
fn cos_quarter(x: i64) -> (r: i64)
    ensures
        r == spec_cos_quarter(x as int),
{
    let x2 = fx_mul(x, x);
    let s3 = fx_sub(FX_ONE, fx_divi(x2, 56));
    let s2 = fx_sub(FX_ONE, fx_divi(fx_mul(x2, s3), 30));
    let s1 = fx_sub(FX_ONE, fx_divi(fx_mul(x2, s2), 12));
    fx_sub(FX_ONE, fx_divi(fx_mul(x2, s1), 2))
}

/// First-quadrant sine polynomial.
fn sin_quarter(x: i64) -> (r: i64)
    ensures
        r == spec_sin_quarter(x as int),
{
    let x2 = fx_mul(x, x);
    let s3 = fx_sub(FX_ONE, fx_divi(x2, 42));
    let s2 = fx_sub(FX_ONE, fx_divi(fx_mul(x2, s3), 20));
    let s1 = fx_sub(FX_ONE, fx_divi(fx_mul(x2, s2), 6));
    fx_mul(x, s1)
}

/// Cosine of a fixed-point angle.
pub fn fx_cos(x: i64) -> (r: i64)
    ensures
        r == spec_fx_cos(x as int),
        -FX_ONE <= r <= FX_ONE,
{
    let y = angle_clamp(x);
    if y <= FX_HALF_PI {
        unit_clamp(cos_quarter(y))
    } else if y <= FX_PI {
        unit_clamp(fx_neg(cos_quarter(FX_PI - y)))
    } else if y <= FX_PI + FX_HALF_PI {
        unit_clamp(fx_neg(cos_quarter(y - FX_PI)))
    } else {
        unit_clamp(cos_quarter(FX_TWO_PI - y))
    }
}

/// Sine of a fixed-point angle.
pub fn fx_sin(x: i64) -> (r: i64)
    ensures
        r == spec_fx_sin(x as int),
        -FX_ONE <= r <= FX_ONE,
{
    let y = angle_clamp(x);
    if y <= FX_HALF_PI {
        unit_clamp(sin_quarter(y))
    } else if y <= FX_PI {
        unit_clamp(sin_quarter(FX_PI - y))
    } else if y <= FX_PI + FX_HALF_PI {
        unit_clamp(fx_neg(sin_quarter(y - FX_PI)))
    } else {
        unit_clamp(fx_neg(sin_quarter(FX_TWO_PI - y)))
    }
}

} // verus!
