//! Fixed-point arithmetic for the evaluator.
//!
//! Every fractional quantity is stored as a signed 64-bit count of
//! micro-units: `SCALE` units stand for `1.0`.  Intermediate products are
//! taken in 128-bit arithmetic and narrowed back with symmetric saturation,
//! so every operation in the crate is total and deterministic.

use vstd::prelude::*;
use vstd::arithmetic::div_mod::{
    lemma_div_by_multiple, lemma_div_denominator, lemma_div_is_ordered, lemma_div_multiples_vanish,
    lemma_div_nonincreasing, lemma_div_pos_is_pos, lemma_fundamental_div_mod, lemma_mod_bound,
};

verus! {

/// Number of fixed-point units that stand for `1.0`.
pub const SCALE: i64 = 1_000_000;

/// Largest magnitude a fixed-point value may take; narrowing saturates here.
pub const SAT_MAX: i64 = 9_223_372_036_854_775_807;

/// Symmetric saturation of an unbounded integer into the signed 64-bit range.
pub open spec fn sat64(x: int) -> int {
    if x > SAT_MAX as int {
        SAT_MAX as int
    } else if x < -(SAT_MAX as int) {
        -(SAT_MAX as int)
    } else {
        x
    }
}

/// Division truncated toward zero (the machine's signed division);
/// division by zero yields zero.
pub open spec fn tdiv(a: int, b: int) -> int {
    if b == 0 {
        0
    } else if a >= 0 && b > 0 {
        a / b
    } else if a < 0 && b > 0 {
        -((-a) / b)
    } else if a >= 0 {
        -(a / (-b))
    } else {
        (-a) / (-b)
    }
}

/// Division by a positive divisor, rounded to the nearest integer with
/// halves away from zero (the rounding used for seconds-to-frame
/// conversion).
pub open spec fn round_half_div(p: int, d: int) -> int
    recommends
        d > 0,
{
    if p >= 0 {
        (p + d / 2) / d
    } else {
        -((-p + d / 2) / d)
    }
}

/// A timestamp in fixed-point seconds converted to a whole frame number:
/// `round(seconds * fps)`, saturated into the 64-bit range.
pub open spec fn spec_to_frame(ts: int, fps: int) -> int {
    sat64(round_half_div(ts * fps, SCALE as int))
}

/// Narrow a 128-bit value into the signed 64-bit range by saturation.
pub fn sat_i128(x: i128) -> (r: i64)
    ensures
        r as int == sat64(x as int),
{
    if x > SAT_MAX as i128 {
        SAT_MAX
    } else if x < -(SAT_MAX as i128) {
        -SAT_MAX
    } else {
        x as i64
    }
}

/// Truncating division on 128-bit values, zero when the divisor is zero.
pub fn tdiv_i128(a: i128, b: i128) -> (r: i128)
    requires
        -0x7fff_ffff_ffff_ffff_ffff_ffff_ffff_ffff <= a,
        -0x7fff_ffff_ffff_ffff_ffff_ffff_ffff_ffff <= b,
    ensures
        r as int == tdiv(a as int, b as int),
        a >= 0 ==> -a <= r <= a,
        a < 0 ==> a <= r <= -a,
{
    proof {
        lemma_tdiv_abs_le(a as int, b as int);
    }
    if b == 0 {
        0
    } else if a >= 0 && b > 0 {
        ((a as u128) / (b as u128)) as i128
    } else if a < 0 && b > 0 {
        -((((-a) as u128) / (b as u128)) as i128)
    } else if a >= 0 {
        -(((a as u128) / ((-b) as u128)) as i128)
    } else {
        ((((-a) as u128) / ((-b) as u128)) as i128)
    }
}

/// The magnitude of a truncating quotient never exceeds the magnitude of
/// the dividend.
pub proof fn lemma_tdiv_abs_le(a: int, b: int)
    ensures
        a >= 0 ==> -a <= tdiv(a, b) <= a,
        a < 0 ==> a <= tdiv(a, b) <= -a,
{
    if b != 0 {
        if a >= 0 && b > 0 {
            lemma_div_nonincreasing(a, b);
            lemma_div_pos_is_pos(a, b);
        } else if a < 0 && b > 0 {
            lemma_div_nonincreasing(-a, b);
            lemma_div_pos_is_pos(-a, b);
        } else if a >= 0 {
            lemma_div_nonincreasing(a, -b);
            lemma_div_pos_is_pos(a, -b);
        } else {
            lemma_div_nonincreasing(-a, -b);
            lemma_div_pos_is_pos(-a, -b);
        }
    }
}

/// A dividend below `m * b` has a truncating quotient below `m`.
pub proof fn lemma_tdiv_quotient_bound(a: int, b: int, m: int)
    requires
        b > 0,
        0 <= m,
        -(m * b) <= a <= m * b,
    ensures
        -m <= tdiv(a, b) <= m,
{
    lemma_div_by_multiple(m, b);
    if a >= 0 {
        lemma_div_is_ordered(a, m * b, b);
        lemma_div_pos_is_pos(a, b);
    } else {
        lemma_div_is_ordered(-a, m * b, b);
        lemma_div_pos_is_pos(-a, b);
    }
}

/// Seconds-to-frame conversion on a 128-bit timestamp (window ends are sums
/// of two 64-bit timestamps, so they are taken wide).
pub fn to_frame_i128(ts: i128, fps: i16) -> (r: i64)
    requires
        -0x2_0000_0000_0000_0000 <= ts <= 0x2_0000_0000_0000_0000,
    ensures
        r as int == spec_to_frame(ts as int, fps as int),
{
    proof {
        assert(-0x10_0000_0000_0000_0000_0000 <= (ts as int) * (fps as int)
            <= 0x10_0000_0000_0000_0000_0000) by (nonlinear_arith)
            requires
                -0x2_0000_0000_0000_0000 <= ts as int <= 0x2_0000_0000_0000_0000,
                -0x8000 <= fps as int <= 0x8000,
        ;
    }
    let p: i128 = ts * (fps as i128);
    let half: u128 = (SCALE as u128) / 2;
    let q: i128 = if p >= 0 {
        (((p as u128) + half) / (SCALE as u128)) as i128
    } else {
        -(((((-p) as u128) + half) / (SCALE as u128)) as i128)
    };
    sat_i128(q)
}

/// Scales a 32-bit pixel count into fixed-point units.
pub fn scale_i32(v: i32) -> (r: i64)
    ensures
        r as int == (v as int) * (SCALE as int),
{
    proof {
        assert(-0x8000_0000_0000_0000 <= (v as int) * (SCALE as int)
            <= 0x8000_0000_0000_0000) by (nonlinear_arith)
            requires
                -0x8000_0000 <= (v as int) < 0x8000_0000,
                SCALE as int == 1000000,
        ;
    }
    ((v as i128) * (SCALE as i128)) as i64
}

/// Half of a 32-bit pixel count, truncated toward zero, in fixed-point
/// units.
pub fn scale_half_i32(v: i32) -> (r: i64)
    ensures
        r as int == tdiv(v as int, 2) * (SCALE as int),
        -0x8000_0000_0000_0000 <= r as int <= 0x8000_0000_0000_0000,
{
    let half: i128 = tdiv_i128(v as i128, 2);
    proof {
        assert(-0x8000_0000_0000_0000 <= (half as int) * (SCALE as int)
            <= 0x8000_0000_0000_0000) by (nonlinear_arith)
            requires
                -0x8000_0000 <= half as int <= 0x8000_0000,
                SCALE as int == 1000000,
        ;
    }
    (half * (SCALE as i128)) as i64
}

/// A common positive factor cancels out of a truncating division.
pub proof fn lemma_tdiv_common_factor(x: int, m: int, b: int)
    requires
        m > 0,
        b > 0,
    ensures
        tdiv(m * x, m * b) == tdiv(x, b),
{
    assert(m * b > 0) by (nonlinear_arith)
        requires
            m > 0,
            b > 0,
    ;
    if x >= 0 {
        assert(m * x >= 0) by (nonlinear_arith)
            requires
                m > 0,
                x >= 0,
        ;
        lemma_div_denominator(m * x, m, b);
        lemma_div_multiples_vanish(x, m);
    } else {
        assert(m * x < 0 && -(m * x) == m * (-x)) by (nonlinear_arith)
            requires
                m > 0,
                x < 0,
        ;
        lemma_div_denominator(m * (-x), m, b);
        lemma_div_multiples_vanish(-x, m);
    }
}

/// Multiplying by a positive factor and dividing it away returns the
/// original value, in truncating division.
pub proof fn lemma_tdiv_scale_cancel(z: int, m: int)
    requires
        m > 0,
    ensures
        tdiv(z * m, m) == z,
{
    if z >= 0 {
        assert(z * m >= 0) by (nonlinear_arith)
            requires
                m > 0,
                z >= 0,
        ;
        lemma_div_by_multiple(z, m);
    } else {
        assert(z * m < 0 && -(z * m) == (-z) * m) by (nonlinear_arith)
            requires
                m > 0,
                z < 0,
        ;
        lemma_div_by_multiple(-z, m);
    }
}

/// The remainder of a truncating division has the dividend's sign and a
/// magnitude below the divisor.
pub proof fn lemma_tdiv_rem(a: int, b: int)
    requires
        b > 0,
    ensures
        a >= 0 ==> 0 <= a - b * tdiv(a, b) < b,
        a < 0 ==> -b < a - b * tdiv(a, b) <= 0,
{
    if a >= 0 {
        lemma_fundamental_div_mod(a, b);
        lemma_mod_bound(a, b);
    } else {
        lemma_fundamental_div_mod(-a, b);
        lemma_mod_bound(-a, b);
        assert(b * tdiv(a, b) == -(b * ((-a) / b))) by (nonlinear_arith)
            requires
                tdiv(a, b) == -((-a) / b),
        ;
    }
}

} // verus!
