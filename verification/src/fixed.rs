//! Q16.16 fixed-point scalars.
//!
//! A scalar is an `i64` holding a real value scaled by `FX_ONE` (2^16).
//! Every arithmetic operation truncates toward zero and then saturates into
//! `[-FX_MAX, FX_MAX]`, so each operation is total and is described exactly,
//! as an integer function of its operands, by the `spec_fx_*` functions.

use vstd::prelude::*;

verus! {

/// The fixed-point representation of 1.0.
pub const FX_ONE: i64 = 65536;

/// Largest magnitude a fixed-point scalar may take (2^46, about 10^9 as a
/// real value); every operation saturates here.
pub const FX_MAX: i64 = 70368744177664;

/// Absolute value of a mathematical integer.
pub open spec fn spec_abs(a: int) -> int {
    if a < 0 {
        -a
    } else {
        a
    }
}

/// Saturation into the representable range.
pub open spec fn spec_clamp(a: int) -> int {
    if a > FX_MAX {
        FX_MAX as int
    } else if a < -FX_MAX {
        -FX_MAX as int
    } else {
        a
    }
}

/// Division truncating toward zero (the rounding the executable code uses);
/// division by zero is defined as zero to keep every operation total.
pub open spec fn spec_tdiv(a: int, b: int) -> int {
    if b == 0 {
        0
    } else if (a < 0) != (b < 0) {
        -(spec_abs(a) / spec_abs(b))
    } else {
        spec_abs(a) / spec_abs(b)
    }
}

/// Saturating fixed-point addition.
pub open spec fn spec_fx_add(a: int, b: int) -> int {
    spec_clamp(a + b)
}

/// Saturating fixed-point subtraction.
pub open spec fn spec_fx_sub(a: int, b: int) -> int {
    spec_clamp(a - b)
}

/// Saturating fixed-point negation.
pub open spec fn spec_fx_neg(a: int) -> int {
    spec_clamp(-a)
}

/// Saturating fixed-point multiplication: (a * b) / 2^16, truncated.
pub open spec fn spec_fx_mul(a: int, b: int) -> int {
    spec_clamp(spec_tdiv(a * b, FX_ONE as int))
}

/// Saturating fixed-point division: (a * 2^16) / b, truncated.
pub open spec fn spec_fx_div(a: int, b: int) -> int {
    spec_clamp(spec_tdiv(a * (FX_ONE as int), b))
}

/// Saturating division of a fixed-point value by a plain integer.
pub open spec fn spec_fx_divi(a: int, n: int) -> int {
    spec_clamp(spec_tdiv(a, n))
}

/// Saturate an `i128` intermediate into the representable range.
fn sat64(v: i128) -> (r: i64)
    ensures
        r == spec_clamp(v as int),
{
    if v > FX_MAX as i128 {
        FX_MAX
    } else if v < -(FX_MAX as i128) {
        -FX_MAX
    } else {
        v as i64
    }
}

/// Truncating division of `i128` values, computed through unsigned division
/// so the rounding direction is explicit.
fn tdiv128(a: i128, b: i128) -> (r: i128)
    requires
        -0x40000000000000000000000000000000 <= a <= 0x40000000000000000000000000000000,
        -0x40000000000000000000000000000000 <= b <= 0x40000000000000000000000000000000,
    ensures
        r == spec_tdiv(a as int, b as int),
        spec_abs(r as int) <= spec_abs(a as int),
{
    if b == 0 {
        return 0;
    }
    let ua: u128 = if a < 0 {
        (-a) as u128
    } else {
        a as u128
    };
    let ub: u128 = if b < 0 {
        (-b) as u128
    } else {
        b as u128
    };
    let uq: u128 = ua / ub;
    assert(uq <= ua) by {
        assert(ub >= 1);
        assert(ua / ub <= ua / 1) by {
            vstd::arithmetic::div_mod::lemma_div_is_ordered_by_denominator(
                ua as int,
                1,
                ub as int,
            );
        }
    }
    if (a < 0) != (b < 0) {
        -(uq as i128)
    } else {
        uq as i128
    }
}

/// The product of two `i64` values stays well inside the `i128` range.
proof fn lemma_i64_product_in_i128(a: int, b: int)
    requires
        -0x8000000000000000 <= a <= 0x7fffffffffffffff,
        -0x8000000000000000 <= b <= 0x7fffffffffffffff,
    ensures
        -0x40000000000000000000000000000000 <= a * b <= 0x40000000000000000000000000000000,
{
    let aa = spec_abs(a);
    let bb = spec_abs(b);
    assert(aa * bb <= 0x8000000000000000 * 0x8000000000000000) by {
        vstd::arithmetic::mul::lemma_mul_upper_bound(
            aa,
            0x8000000000000000,
            bb,
            0x8000000000000000,
        );
    }
    assert(-(aa * bb) <= a * b <= aa * bb) by (nonlinear_arith)
        requires
            aa == a || aa == -a,
            bb == b || bb == -b,
            aa >= 0,
            bb >= 0,
    ;
}

/// Fixed-point addition.
pub fn fx_add(a: i64, b: i64) -> (r: i64)
    ensures
        r == spec_fx_add(a as int, b as int),
{
    sat64(a as i128 + b as i128)
}

/// Fixed-point subtraction.
pub fn fx_sub(a: i64, b: i64) -> (r: i64)
    ensures
        r == spec_fx_sub(a as int, b as int),
{
    sat64(a as i128 - b as i128)
}

/// Fixed-point negation.
pub fn fx_neg(a: i64) -> (r: i64)
    ensures
        r == spec_fx_neg(a as int),
{
    sat64(-(a as i128))
}

/// Fixed-point multiplication.
pub fn fx_mul(a: i64, b: i64) -> (r: i64)
    ensures
        r == spec_fx_mul(a as int, b as int),
{
    proof {
        lemma_i64_product_in_i128(a as int, b as int);
    }
    let p: i128 = a as i128 * b as i128;
    sat64(tdiv128(p, FX_ONE as i128))
}

/// Fixed-point division.
pub fn fx_div(a: i64, b: i64) -> (r: i64)
    ensures
        r == spec_fx_div(a as int, b as int),
{
    proof {
        lemma_i64_product_in_i128(a as int, FX_ONE as int);
    }
    let p: i128 = a as i128 * FX_ONE as i128;
    sat64(tdiv128(p, b as i128))
}

/// Division of a fixed-point value by a plain integer.
pub fn fx_divi(a: i64, n: i64) -> (r: i64)
    ensures
        r == spec_fx_divi(a as int, n as int),
{
    sat64(tdiv128(a as i128, n as i128))
}

/// Truncating division is odd in its dividend.
pub proof fn lemma_tdiv_neg(a: int, b: int)
    ensures
        spec_tdiv(-a, b) == -spec_tdiv(a, b),
{
}

/// Negating one factor negates a saturating product exactly (truncation
/// toward zero and the saturation range are both symmetric about zero).
pub proof fn lemma_fx_mul_neg_left(a: int, b: int)
    ensures
        spec_fx_mul(-a, b) == -spec_fx_mul(a, b),
{
    assert((-a) * b == -(a * b)) by (nonlinear_arith);
    lemma_tdiv_neg(a * b, FX_ONE as int);
}

/// A product of nonnegative scalars is nonnegative.
pub proof fn lemma_fx_mul_nonneg(a: int, b: int)
    requires
        a >= 0,
        b >= 0,
    ensures
        spec_fx_mul(a, b) >= 0,
{
    assert(a * b >= 0) by (nonlinear_arith)
        requires
            a >= 0,
            b >= 0,
    ;
    assert(spec_tdiv(a * b, FX_ONE as int) >= 0) by {
        vstd::arithmetic::div_mod::lemma_div_pos_is_pos(a * b, FX_ONE as int);
    }
}

/// A product with zero is zero.
pub proof fn lemma_fx_mul_zero(b: int)
    ensures
        spec_fx_mul(0, b) == 0,
        spec_fx_mul(b, 0) == 0,
{
    assert(0 * b == 0 && b * 0 == 0) by (nonlinear_arith);
}

/// A quotient of a nonpositive scalar by a positive one is nonpositive.
pub proof fn lemma_fx_div_nonpos(a: int, b: int)
    requires
        a <= 0,
        b > 0,
    ensures
        spec_fx_div(a, b) <= 0,
{
    assert(a * (FX_ONE as int) <= 0) by (nonlinear_arith)
        requires
            a <= 0,
    ;
    if a * (FX_ONE as int) < 0 {
        assert(spec_abs(a * (FX_ONE as int)) / spec_abs(b) >= 0) by {
            vstd::arithmetic::div_mod::lemma_div_pos_is_pos(
                spec_abs(a * (FX_ONE as int)),
                spec_abs(b),
            );
        }
    }
}

/// A quotient of a nonnegative scalar by a positive one is nonnegative.
pub proof fn lemma_fx_div_nonneg(a: int, b: int)
    requires
        a >= 0,
        b > 0,
    ensures
        spec_fx_div(a, b) >= 0,
{
    assert(a * (FX_ONE as int) >= 0) by (nonlinear_arith)
        requires
            a >= 0,
    ;
    assert(spec_tdiv(a * (FX_ONE as int), b) >= 0) by {
        vstd::arithmetic::div_mod::lemma_div_pos_is_pos(a * (FX_ONE as int), b);
    }
}

/// `r` is the integer square root of `n`.
pub open spec fn spec_sqrt_brackets(n: int, r: int) -> bool {
    r >= 0 && r * r <= n < (r + 1) * (r + 1)
}

/// The integer square root of `n` (meaningful for `n >= 0`).
pub open spec fn spec_isqrt(n: int) -> int {
    choose|r: int| spec_sqrt_brackets(n, r)
}

/// Fixed-point square root: the square root of `max(a, 0)`, rounded down to
/// the nearest representable value.
pub open spec fn spec_fx_sqrt(a: int) -> int {
    if a <= 0 {
        0
    } else {
        spec_isqrt(a * FX_ONE)
    }
}

/// No two integers bracket `n` the way an integer square root does.
proof fn lemma_isqrt_unique(n: int, r1: int, r2: int)
    by (nonlinear_arith)
    requires
        spec_sqrt_brackets(n, r1),
        spec_sqrt_brackets(n, r2),
    ensures
        r1 == r2,
{
}

/// Every nonnegative integer has an integer square root.
pub proof fn lemma_isqrt_exists(n: int)
    requires
        n >= 0,
    ensures
        exists|r: int| #[trigger] spec_sqrt_brackets(n, r),
    decreases n,
{
    if n == 0 {
        assert(spec_sqrt_brackets(0, 0));
    } else {
        lemma_isqrt_exists(n - 1);
        let r = choose|r: int| #[trigger] spec_sqrt_brackets(n - 1, r);
        if (r + 1) * (r + 1) <= n {
            assert((n - 1) < (r + 1) * (r + 1));
            assert(n < (r + 2) * (r + 2)) by (nonlinear_arith)
                requires
                    n <= (r + 1) * (r + 1),
                    r >= 0,
            ;
            assert(spec_sqrt_brackets(n, r + 1));
        } else {
            assert(spec_sqrt_brackets(n, r));
        }
    }
}

/// What `spec_fx_sqrt` returns: zero for nonpositive arguments, else the
/// bracketing integer square root of the scaled argument.
pub proof fn lemma_fx_sqrt_spec(a: int)
    ensures
        spec_fx_sqrt(a) >= 0,
        a > 0 ==> spec_sqrt_brackets(a * (FX_ONE as int), spec_fx_sqrt(a)),
{
    if a > 0 {
        assert(a * (FX_ONE as int) >= 0) by (nonlinear_arith)
            requires
                a > 0,
        ;
        lemma_isqrt_exists(a * (FX_ONE as int));
    }
}

/// Multiplying or dividing by (plus or minus) one is exact for representable
/// scalars.
pub proof fn lemma_fx_mul_by_one(a: int)
    requires
        -FX_MAX <= a <= FX_MAX,
    ensures
        spec_fx_mul(a, FX_ONE as int) == a,
        spec_fx_mul(FX_ONE as int, a) == a,
        spec_fx_div(a, FX_ONE as int) == a,
        spec_fx_mul(a, -(FX_ONE as int)) == -a,
{
    let s = FX_ONE as int;
    assert(a * s == s * a) by (nonlinear_arith);
    lemma_tdiv_scale(a);
    assert(a * (-s) == -(a * s)) by (nonlinear_arith);
    lemma_tdiv_neg(a * s, s);
}

/// `(a * FX_ONE) / FX_ONE == a`, with truncating division.
proof fn lemma_tdiv_scale(a: int)
    ensures
        spec_tdiv(a * (FX_ONE as int), FX_ONE as int) == a,
{
    let s = FX_ONE as int;
    assert(spec_abs(a * s) == spec_abs(a) * s) by (nonlinear_arith)
        requires
            s > 0,
    ;
    assert(spec_abs(a) * s / s == spec_abs(a)) by {
        vstd::arithmetic::div_mod::lemma_div_multiples_vanish(spec_abs(a), s);
        assert(s * spec_abs(a) == spec_abs(a) * s) by (nonlinear_arith);
    }
    if a < 0 {
        assert(a * s < 0) by (nonlinear_arith)
            requires
                a < 0,
                s > 0,
        ;
    } else {
        assert(a * s >= 0) by (nonlinear_arith)
            requires
                a >= 0,
                s > 0,
        ;
    }
}

/// A square is nonnegative.
pub proof fn lemma_fx_square_nonneg(a: int)
    ensures
        spec_fx_mul(a, a) >= 0,
{
    assert(a * a >= 0) by (nonlinear_arith);
    assert(spec_tdiv(a * a, FX_ONE as int) >= 0) by {
        vstd::arithmetic::div_mod::lemma_div_pos_is_pos(a * a, FX_ONE as int);
    }
}

/// The square root of the square of a representable multiple of 2^8 is that
/// multiple again: such squares are exact in fixed point.
pub proof fn lemma_fx_sqrt_of_square(a: int)
    requires
        0 < a <= 0x40000000,
        a % 256 == 0,
    ensures
        spec_fx_mul(a, a) == a * a / (FX_ONE as int),
        spec_fx_sqrt(spec_fx_mul(a, a)) == a,
{
    let s = FX_ONE as int;
    let q = a / 256;
    assert(a == 256 * q) by {
        vstd::arithmetic::div_mod::lemma_fundamental_div_mod(a, 256);
    }
    assert(a * a == (q * q) * s) by (nonlinear_arith)
        requires
            a == 256 * q,
            s == 65536,
    ;
    assert(a * a >= 0) by (nonlinear_arith);
    assert(spec_tdiv(a * a, s) == a * a / s);
    assert((q * q) * s / s == q * q) by {
        vstd::arithmetic::div_mod::lemma_div_multiples_vanish(q * q, s);
        assert(s * (q * q) == (q * q) * s) by (nonlinear_arith);
    }
    assert(q * q >= 0) by (nonlinear_arith);
    assert(0 <= q * q <= FX_MAX) by (nonlinear_arith)
        requires
            0 < a <= 0x40000000,
            a == 256 * q,
            q * q * s == a * a,
            s == 65536,
            FX_MAX == 70368744177664,
    ;
    assert(spec_fx_mul(a, a) == q * q);
    // The scaled square is (a)^2 again, whose root brackets are exact.
    assert(q * q * s == a * a) by (nonlinear_arith)
        requires
            a == 256 * q,
            s == 65536,
    ;
    if q * q > 0 {
        assert(spec_sqrt_brackets(a * a, a)) by (nonlinear_arith)
            requires
                a > 0,
        ;
        lemma_isqrt_exists(a * a);
        lemma_isqrt_unique(a * a, a, spec_isqrt(a * a));
    } else {
        assert(false) by (nonlinear_arith)
            requires
                q * q == 0,
                q * q * s == a * a,
                a > 0,
        ;
    }
}

/// Averaging `n` equal representable summands gives the summand back
/// exactly: `(n * e) / (n * 1.0) == e` in fixed point.
pub proof fn lemma_fx_average_of_equal(e: int, n: int)
    requires
        0 <= e <= FX_MAX,
        1 <= n,
    ensures
        spec_fx_div(n * e, n * (FX_ONE as int)) == e,
{
    let s = FX_ONE as int;
    assert(e * s >= 0) by (nonlinear_arith)
        requires
            e >= 0,
            s > 0,
    ;
    assert((n * e) * s == n * (e * s)) by (nonlinear_arith);
    assert(n * e >= 0 && n * s > 0) by (nonlinear_arith)
        requires
            n >= 1,
            e >= 0,
            s > 0,
    ;
    vstd::arithmetic::div_mod::lemma_div_multiples_vanish_quotient(n, e * s, s);
    assert(e * s == s * e) by (nonlinear_arith);
    vstd::arithmetic::div_mod::lemma_div_multiples_vanish(e, s);
}

/// The square root of one is one.
pub proof fn lemma_fx_sqrt_one()
    ensures
        spec_fx_sqrt(FX_ONE as int) == FX_ONE,
{
    let s = FX_ONE as int;
    assert(spec_sqrt_brackets(s * s, s)) by (nonlinear_arith)
        requires
            s == 65536,
    ;
    lemma_isqrt_exists(s * s);
    lemma_isqrt_unique(s * s, s, spec_isqrt(s * s));
}

/// The square root of a value at most one is at most one.
pub proof fn lemma_fx_sqrt_le_one(a: int)
    requires
        a <= FX_ONE,
    ensures
        spec_fx_sqrt(a) <= FX_ONE,
{
    let s = FX_ONE as int;
    if a > 0 {
        lemma_fx_sqrt_spec(a);
        let r = spec_fx_sqrt(a);
        assert(a * s <= s * s) by (nonlinear_arith)
            requires
                0 < a <= s,
        ;
        assert(r <= s) by (nonlinear_arith)
            requires
                r >= 0,
                r * r <= a * s,
                a * s <= s * s,
                s > 0,
        ;
    }
}

/// Integer square root by bisection.
fn isqrt_u128(n: u128) -> (r: u128)
    requires
        n < 0x40000000000000000000000000000000,
    ensures
        spec_sqrt_brackets(n as int, r as int),
        r < 0x8000000000000000,
{
    let mut lo: u128 = 0;
    let mut hi: u128 = 0x8000000000000000;
    proof {
        assert((0x8000000000000000 as int) * (0x8000000000000000 as int)
            == 0x40000000000000000000000000000000) by (nonlinear_arith);
    }
    while lo + 1 < hi
        invariant
            lo < hi <= 0x8000000000000000,
            (lo as int) * (lo as int) <= n as int,
            (n as int) < (hi as int) * (hi as int),
        decreases hi - lo,
    {
        let mid = lo + (hi - lo) / 2;
        proof {
            assert(lo < mid < hi);
            assert((mid as int) * (mid as int) < 0x40000000000000000000000000000000)
                by (nonlinear_arith)
                requires
                    0 <= mid < 0x8000000000000000,
            ;
        }
        if mid * mid <= n {
            lo = mid;
        } else {
            hi = mid;
        }
    }
    lo
}

/// Fixed-point square root.
pub fn fx_sqrt(a: i64) -> (r: i64)
    ensures
        r == spec_fx_sqrt(a as int),
        0 <= r <= 0x10000000000,
{
    if a <= 0 {
        return 0;
    }
    proof {
        assert((a as int) * (FX_ONE as int) < 0x40000000000000000000000000000000)
            by (nonlinear_arith)
            requires
                0 < a <= 0x7fffffffffffffff,
        ;
    }
    let n: u128 = (a as u128) * (FX_ONE as u128);
    let r = isqrt_u128(n);
    proof {
        assert(spec_sqrt_brackets(n as int, r as int));
        assert(exists|q: int| spec_sqrt_brackets(n as int, q));
        lemma_isqrt_unique(n as int, r as int, spec_isqrt(n as int));
        assert(r as int <= 0x10000000000) by (nonlinear_arith)
            requires
                spec_sqrt_brackets(n as int, r as int),
                n <= 0x7fffffffffffffff * 0x10000,
        ;
    }
    r as i64
}

} // verus!
