//! Random variates for the estimator.
//!
//! Each worker owns an independent `rand::rngs::StdRng`. The generator is
//! opaque to the verifier: nothing is assumed about the values it yields
//! beyond their type, so everything proved about the estimator holds for
//! every possible random stream.

use vstd::prelude::*;

use rand::RngCore;

use crate::fixed::{fx_mul, spec_fx_mul, FX_ONE};
use crate::trig::FX_TWO_PI;

verus! {

/// rand's standard generator, declared so it can cross verified signatures;
/// its values are opaque.
#[verifier::external_type_specification]
#[verifier::external_body]
pub struct ExStdRng(rand::rngs::StdRng);

/// Relies on rand's `RngCore::next_u32` for `StdRng`: a fresh 32-bit value.
/// Nothing is assumed about which value comes back.
#[verifier::external_body]
fn rng_next_u32(rng: &mut rand::rngs::StdRng) -> u32 {
    rng.next_u32()
}

/// A uniform fixed-point variate in `[0, 1)`: the low 16 bits of a draw are
/// exactly the fractional resolution of the representation.
pub fn next_unit(rng: &mut rand::rngs::StdRng) -> (r: i64)
    ensures
        0 <= r < FX_ONE,
{
    let x = rng_next_u32(rng);
    (x % 65536) as i64
}

/// A uniform fixed-point angle in `[0, 2*pi)`.
pub fn next_angle(rng: &mut rand::rngs::StdRng) -> (r: i64)
    ensures
        0 <= r < FX_TWO_PI,
{
    let u = next_unit(rng);
    proof {
        lemma_unit_times_angle(u as int);
    }
    fx_mul(u, FX_TWO_PI)
}

/// Scaling an angle by a variate in `[0, 1)` keeps it in `[0, 2*pi)`.
proof fn lemma_unit_times_angle(u: int)
    requires
        0 <= u < FX_ONE,
    ensures
        0 <= spec_fx_mul(u, FX_TWO_PI as int) < FX_TWO_PI,
{
    let p = u * (FX_TWO_PI as int);
    assert(0 <= p < (FX_ONE as int) * (FX_TWO_PI as int)) by (nonlinear_arith)
        requires
            0 <= u < FX_ONE,
            p == u * (FX_TWO_PI as int),
    ;
    assert(p / (FX_ONE as int) < FX_TWO_PI) by {
        vstd::arithmetic::div_mod::lemma_multiply_divide_lt(p, FX_ONE as int, FX_TWO_PI as int);
    }
    assert(p / (FX_ONE as int) >= 0) by {
        vstd::arithmetic::div_mod::lemma_div_pos_is_pos(p, FX_ONE as int);
    }
}

} // verus!
