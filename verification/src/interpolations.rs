//! Interpolation between keyframe pairs: linear, a catalogue of named
//! easing curves, and a frame-stepped spring integrator.
//!
//! Easing curves map a fixed-point progress in `[0, SCALE]` to an eased
//! value in `[0, SCALE]`; they are the well-known closed forms (quadratic,
//! cubic, quartic, quintic, circular, exponential; each as in / out /
//! in-out), computed here in fixed-point arithmetic.

use vstd::prelude::*;
use vstd::arithmetic::div_mod::{
    lemma_div_by_multiple, lemma_div_is_ordered, lemma_div_pos_is_pos,
};
use crate::fixed::{
    lemma_tdiv_quotient_bound, sat64, sat_i128, tdiv, tdiv_i128, SCALE, SAT_MAX,
};
use crate::keyframe::RenderedKeyframe;

verus! {

/// Parameters of the spring interpolator, in fixed-point units.
#[derive(Debug, Clone, Copy, PartialEq, Eq, Structural)]
pub struct SpringProperties {
    pub mass: i64,
    pub damping: i64,
    pub stiffness: i64,
}

/// Running state of the spring integrator.
#[derive(Debug, Clone, Copy, PartialEq, Eq, Structural)]
pub struct SpringState {
    pub velocity: i64,
    pub last_val: i64,
}

/// The fixed catalogue of named easing curves.
#[derive(Debug, Clone, Copy, PartialEq, Eq, Structural)]
pub enum EasingFunction {
    QuintOut,
    QuintIn,
    QuintInOut,
    CircOut,
    CircIn,
    CircInOut,
    CubicOut,
    CubicIn,
    CubicInOut,
    ExpoOut,
    ExpoIn,
    ExpoInOut,
    QuadOut,
    QuadIn,
    QuadInOut,
    QuartOut,
    QuartIn,
    QuartInOut,
}

/// How the gap between two neighbouring keyframes is filled.
#[derive(Debug, Clone, Copy, PartialEq, Eq, Structural)]
pub enum InterpolationType {
    Linear,
    Spring(SpringProperties),
    EasingFunction(EasingFunction),
}

// ---------------------------------------------------------------------------
// Easing curves, specification side.
// ---------------------------------------------------------------------------

/// Progress clamped into the unit interval `[0, SCALE]`.
pub open spec fn clamp_unit(p: int) -> int {
    if p < 0 {
        0
    } else if p > SCALE as int {
        SCALE as int
    } else {
        p
    }
}

/// `q` raised to the power `n`.
pub open spec fn ipow(q: int, n: nat) -> int
    decreases n,
{
    if n == 0 {
        1
    } else {
        q * ipow(q, (n - 1) as nat)
    }
}

/// The ease-in power curve `q^n` in fixed point: `q^n / SCALE^(n-1)`.
pub open spec fn spec_ease_in_pow(q: int, n: nat) -> int
    recommends
        n >= 1,
{
    ipow(q, n) / ipow(SCALE as int, (n - 1) as nat)
}

/// The ease-out counterpart of a power curve.
pub open spec fn spec_ease_out_pow(q: int, n: nat) -> int {
    SCALE as int - spec_ease_in_pow(SCALE as int - q, n)
}

/// The ease-in-out counterpart of a power curve.
pub open spec fn spec_ease_in_out_pow(q: int, n: nat) -> int {
    if q < SCALE as int / 2 {
        spec_ease_in_pow(2 * q, n) / 2
    } else {
        SCALE as int - spec_ease_in_pow(2 * (SCALE as int) - 2 * q, n) / 2
    }
}

/// Integer square root (the greatest `r` with `r * r <= n`).
pub open spec fn spec_isqrt(n: int) -> int
    decreases n,
{
    if n <= 0 {
        0
    } else {
        let r = 2 * spec_isqrt(n / 4);
        if (r + 1) * (r + 1) <= n {
            r + 1
        } else {
            r
        }
    }
}

/// Square root of a fixed-point value in `[0, SCALE]` (the root is again a
/// fixed-point value).
pub open spec fn spec_ssqrt(x: int) -> int {
    if x <= 0 {
        0
    } else {
        spec_isqrt(x * SCALE)
    }
}

/// Circular ease-in: `1 - sqrt(1 - q^2)`.
pub open spec fn spec_circ_in(q: int) -> int {
    SCALE as int - spec_ssqrt(SCALE as int - (q * q) / (SCALE as int))
}

/// Circular ease-out: `sqrt(1 - (1 - q)^2)`.
pub open spec fn spec_circ_out(q: int) -> int {
    let u = SCALE as int - q;
    spec_ssqrt(SCALE as int - (u * u) / (SCALE as int))
}

/// Circular ease-in-out.
pub open spec fn spec_circ_in_out(q: int) -> int {
    if q < SCALE as int / 2 {
        let u = 2 * q;
        (SCALE as int - spec_ssqrt(SCALE as int - (u * u) / (SCALE as int))) / 2
    } else {
        let u = 2 * (SCALE as int) - 2 * q;
        (spec_ssqrt(SCALE as int - (u * u) / (SCALE as int)) + SCALE as int) / 2
    }
}

/// `2^e` for small natural exponents.
pub open spec fn spec_pow2(e: nat) -> int
    decreases e,
{
    if e == 0 {
        1
    } else {
        2 * spec_pow2((e - 1) as nat)
    }
}

/// Fixed-point constants `round(2^(2^-k) * SCALE)` for `k = 1 ..= 20`.
pub open spec fn spec_cfrac(k: nat) -> int {
    if k == 1 {
        1414214
    } else if k == 2 {
        1189207
    } else if k == 3 {
        1090508
    } else if k == 4 {
        1044274
    } else if k == 5 {
        1021897
    } else if k == 6 {
        1010889
    } else if k == 7 {
        1005430
    } else if k == 8 {
        1002711
    } else if k == 9 {
        1001355
    } else if k == 10 {
        1000677
    } else if k == 11 {
        1000339
    } else if k == 12 {
        1000169
    } else if k == 13 {
        1000085
    } else if k == 14 {
        1000042
    } else if k == 15 {
        1000021
    } else if k == 16 {
        1000011
    } else if k == 17 {
        1000005
    } else if k == 18 {
        1000003
    } else {
        1000001
    }
}

/// Partial product of the binary-fraction expansion of `2^(b / 2^20)`,
/// having considered fraction bits `1 ..= k`.
pub open spec fn spec_frac_step(b: int, k: nat) -> int
    decreases k,
{
    if k == 0 {
        SCALE as int
    } else {
        let prev = spec_frac_step(b, (k - 1) as nat);
        if (b / spec_pow2((20 - k) as nat)) % 2 == 1 {
            (prev * spec_cfrac(k)) / (SCALE as int)
        } else {
            prev
        }
    }
}

/// `2^(r / SCALE) * SCALE` for a fractional exponent `r` in `[0, SCALE)`.
pub open spec fn spec_two_pow_frac(r: int) -> int {
    spec_frac_step((r * 1048576) / (SCALE as int), 20)
}

/// `2^(-z / SCALE) * SCALE` for `z` in `[0, 10 * SCALE]`.
pub open spec fn spec_exp2_neg(z: int) -> int {
    if z <= 0 {
        SCALE as int
    } else {
        let n = z / (SCALE as int);
        let rem = z % (SCALE as int);
        ((SCALE as int) * (SCALE as int)) / (spec_pow2(n as nat) * spec_two_pow_frac(rem))
    }
}

/// Exponential ease-in: `0` at `0`, otherwise `2^(10 q - 10)`.
pub open spec fn spec_expo_in(q: int) -> int {
    if q == 0 {
        0
    } else {
        spec_exp2_neg(10 * (SCALE as int) - 10 * q)
    }
}

/// Exponential ease-out: `1` at `1`, otherwise `1 - 2^(-10 q)`.
pub open spec fn spec_expo_out(q: int) -> int {
    if q == SCALE as int {
        SCALE as int
    } else {
        SCALE as int - spec_exp2_neg(10 * q)
    }
}

/// Exponential ease-in-out.
pub open spec fn spec_expo_in_out(q: int) -> int {
    if q == 0 {
        0
    } else if q == SCALE as int {
        SCALE as int
    } else if q < SCALE as int / 2 {
        spec_exp2_neg(10 * (SCALE as int) - 20 * q) / 2
    } else {
        (2 * (SCALE as int) - spec_exp2_neg(20 * q - 10 * (SCALE as int))) / 2
    }
}

/// The eased value of a progress `p` under a named curve.  The curves map
/// `[0, 1]` to `[0, 1]`, so progress is first clamped into the unit range.
pub open spec fn spec_ease(f: EasingFunction, p: int) -> int {
    let q = clamp_unit(p);
    match f {
        EasingFunction::QuadIn => spec_ease_in_pow(q, 2),
        EasingFunction::QuadOut => spec_ease_out_pow(q, 2),
        EasingFunction::QuadInOut => spec_ease_in_out_pow(q, 2),
        EasingFunction::CubicIn => spec_ease_in_pow(q, 3),
        EasingFunction::CubicOut => spec_ease_out_pow(q, 3),
        EasingFunction::CubicInOut => spec_ease_in_out_pow(q, 3),
        EasingFunction::QuartIn => spec_ease_in_pow(q, 4),
        EasingFunction::QuartOut => spec_ease_out_pow(q, 4),
        EasingFunction::QuartInOut => spec_ease_in_out_pow(q, 4),
        EasingFunction::QuintIn => spec_ease_in_pow(q, 5),
        EasingFunction::QuintOut => spec_ease_out_pow(q, 5),
        EasingFunction::QuintInOut => spec_ease_in_out_pow(q, 5),
        EasingFunction::CircIn => spec_circ_in(q),
        EasingFunction::CircOut => spec_circ_out(q),
        EasingFunction::CircInOut => spec_circ_in_out(q),
        EasingFunction::ExpoIn => spec_expo_in(q),
        EasingFunction::ExpoOut => spec_expo_out(q),
        EasingFunction::ExpoInOut => spec_expo_in_out(q),
    }
}

// ---------------------------------------------------------------------------
// Easing curves, executable side.
// ---------------------------------------------------------------------------

/// `x / d <= m` whenever `x <= m * d`.
proof fn lemma_mul_div_le(x: int, m: int, d: int)
    requires
        0 <= x,
        0 <= m,
        0 < d,
        x <= m * d,
    ensures
        x / d <= m,
        0 <= x / d,
{
    lemma_div_is_ordered(x, m * d, d);
    lemma_div_by_multiple(m, d);
    lemma_div_pos_is_pos(x, d);
}

proof fn lemma_ipow_le(q: int, m: int, n: nat)
    requires
        0 <= q <= m,
    ensures
        0 <= ipow(q, n) <= ipow(m, n),
    decreases n,
{
    if n > 0 {
        lemma_ipow_le(q, m, (n - 1) as nat);
        assert(q * ipow(q, (n - 1) as nat) <= m * ipow(m, (n - 1) as nat)
            && 0 <= q * ipow(q, (n - 1) as nat)) by (nonlinear_arith)
            requires
                0 <= q <= m,
                0 <= ipow(q, (n - 1) as nat) <= ipow(m, (n - 1) as nat),
        ;
    }
}

/// The power curves stay inside the unit range.
proof fn lemma_ease_in_pow_bounds(q: int, n: nat)
    requires
        0 <= q <= SCALE as int,
        1 <= n,
    ensures
        0 <= spec_ease_in_pow(q, n) <= SCALE as int,
{
    let d = ipow(SCALE as int, (n - 1) as nat);
    lemma_ipow_le(q, SCALE as int, n);
    lemma_ipow_le(SCALE as int, SCALE as int, (n - 1) as nat);
    assert(ipow(SCALE as int, n) == (SCALE as int) * d);
    assert(d >= 1) by {
        lemma_ipow_ge_one(SCALE as int, (n - 1) as nat);
    }
    assert((SCALE as int) * d == d * (SCALE as int)) by (nonlinear_arith);
    lemma_mul_div_le(ipow(q, n), SCALE as int, d);
}

proof fn lemma_ipow_ge_one(q: int, n: nat)
    requires
        q >= 1,
    ensures
        ipow(q, n) >= 1,
    decreases n,
{
    if n > 0 {
        lemma_ipow_ge_one(q, (n - 1) as nat);
        assert(q * ipow(q, (n - 1) as nat) >= 1) by (nonlinear_arith)
            requires
                q >= 1,
                ipow(q, (n - 1) as nat) >= 1,
        ;
    }
}

/// The ease-in power curve `q^n / SCALE^(n-1)` on fixed-point values.
fn ease_in_pow(q: u64, n: u64) -> (r: u64)
    requires
        q <= SCALE as u64,
        1 <= n <= 5,
    ensures
        r as int == spec_ease_in_pow(q as int, n as nat),
        r <= SCALE as u64,
{
    proof {
        lemma_ipow_scale_values();
    }
    let mut p: u128 = 1;
    let mut k: u64 = 0;
    while k < n
        invariant
            k <= n <= 5,
            q <= SCALE as u64,
            p == ipow(q as int, k as nat),
            p <= ipow(SCALE as int, k as nat),
        decreases n - k,
    {
        proof {
            lemma_ipow_scale_values();
            lemma_ipow_mono_n(SCALE as int, k as nat, 4);
            assert((p as int) * (q as int) <= 1000000000000000000000000000000
                && (q as int) * (p as int) == (p as int) * (q as int)) by (nonlinear_arith)
                requires
                    0 <= p as int <= 1000000000000000000000000,
                    0 <= q as int <= 1000000,
            ;
            assert((q as int) * ipow(q as int, k as nat) <= (SCALE as int) * ipow(
                SCALE as int,
                k as nat,
            )) by (nonlinear_arith)
                requires
                    0 <= q as int <= SCALE as int,
                    0 <= ipow(q as int, k as nat) <= ipow(SCALE as int, k as nat),
            ;
            lemma_ipow_le(q as int, SCALE as int, k as nat);
        }
        p = p * (q as u128);
        k = k + 1;
    }
    let mut d: u128 = 1;
    let mut j: u64 = 1;
    proof {
        lemma_ipow_scale_values();
    }
    while j < n
        invariant
            1 <= j <= n <= 5,
            d == ipow(SCALE as int, (j - 1) as nat),
            d <= ipow(SCALE as int, 4),
        decreases n - j,
    {
        proof {
            lemma_ipow_scale_values();
            lemma_ipow_mono_n(SCALE as int, (j - 1) as nat, 3);
            assert((d as int) * (SCALE as int) == (SCALE as int) * (d as int)
                && (d as int) * (SCALE as int) <= 1000000000000000000000000) by (nonlinear_arith)
                requires
                    0 <= d as int <= 1000000000000000000,
                    SCALE as int == 1000000,
            ;
        }
        d = d * (SCALE as u128);
        j = j + 1;
    }
    proof {
        lemma_ease_in_pow_bounds(q as int, n as nat);
    }
    (p / d) as u64
}

/// `ipow` is monotone in the exponent for bases at least one.
proof fn lemma_ipow_mono_n(q: int, a: nat, b: nat)
    requires
        q >= 1,
        a <= b,
    ensures
        ipow(q, a) <= ipow(q, b),
    decreases b,
{
    if a < b {
        lemma_ipow_mono_n(q, a, (b - 1) as nat);
        lemma_ipow_ge_one(q, (b - 1) as nat);
        assert(q * ipow(q, (b - 1) as nat) >= ipow(q, (b - 1) as nat)) by (nonlinear_arith)
            requires
                q >= 1,
                ipow(q, (b - 1) as nat) >= 1,
        ;
    }
}

proof fn lemma_ipow_scale_values()
    ensures
        ipow(SCALE as int, 0) == 1,
        ipow(SCALE as int, 1) == 1000000,
        ipow(SCALE as int, 2) == 1000000000000,
        ipow(SCALE as int, 3) == 1000000000000000000,
        ipow(SCALE as int, 4) == 1000000000000000000000000,
        ipow(SCALE as int, 5) == 1000000000000000000000000000000,
{
    reveal_with_fuel(ipow, 6);
}

proof fn lemma_pow2_20()
    ensures
        spec_pow2(19) == 524288,
        spec_pow2(20) == 1048576,
{
    reveal_with_fuel(spec_pow2, 21);
}

/// Integer square root by halving recursion.
fn isqrt(n: u64) -> (r: u64)
    ensures
        r as int == spec_isqrt(n as int),
    decreases n,
{
    if n == 0 {
        0
    } else {
        let h = isqrt(n / 4);
        proof {
            lemma_isqrt_bounds((n / 4) as int);
            assert(h as int <= 0x1_0000_0000) by (nonlinear_arith)
                requires
                    (h as int) * (h as int) <= (n as int) / 4,
                    (n as int) / 4 < 0x1_0000_0000_0000_0000,
                    h as int >= 0,
            ;
            assert(((2 * (h as int)) + 1) * ((2 * (h as int)) + 1)
                <= 0x10_0000_0000_0000_0000_0000) by (nonlinear_arith)
                requires
                    0 <= h as int <= 0x1_0000_0000,
            ;
        }
        let r = 2 * h;
        let cand = (r as u128 + 1) * (r as u128 + 1);
        if cand <= n as u128 {
            r + 1
        } else {
            r
        }
    }
}

/// The integer square root brackets its argument between consecutive
/// squares.
pub proof fn lemma_isqrt_bounds(n: int)
    requires
        n >= 0,
    ensures
        spec_isqrt(n) >= 0,
        spec_isqrt(n) * spec_isqrt(n) <= n,
        n < (spec_isqrt(n) + 1) * (spec_isqrt(n) + 1),
    decreases n,
{
    if n <= 0 {
    } else {
        let q = n / 4;
        lemma_div_pos_is_pos(n, 4);
        lemma_isqrt_bounds(q);
        let h = spec_isqrt(q);
        vstd::arithmetic::div_mod::lemma_fundamental_div_mod(n, 4);
        vstd::arithmetic::div_mod::lemma_mod_bound(n, 4);
        let r = 2 * h;
        assert(r * r <= n && n < (r + 2) * (r + 2)) by (nonlinear_arith)
            requires
                h >= 0,
                h * h <= q,
                q < (h + 1) * (h + 1),
                r == 2 * h,
                4 * q <= n < 4 * q + 4,
        ;
        if (r + 1) * (r + 1) <= n {
            assert(spec_isqrt(n) == r + 1);
        } else {
            assert(spec_isqrt(n) == r);
        }
    }
}

/// Fixed-point square root of a value in `[0, SCALE]`.
fn ssqrt(x: u64) -> (r: u64)
    requires
        x <= SCALE as u64,
    ensures
        r as int == spec_ssqrt(x as int),
        r <= SCALE as u64,
{
    if x == 0 {
        0
    } else {
        let r = isqrt(x * (SCALE as u64));
        proof {
            lemma_isqrt_bounds((x as int) * (SCALE as int));
            assert(r as int <= SCALE as int) by (nonlinear_arith)
                requires
                    (r as int) * (r as int) <= (x as int) * (SCALE as int),
                    (x as int) <= SCALE as int,
                    r as int >= 0,
                    SCALE as int == 1000000,
            ;
        }
        r
    }
}

/// `(a * b) / SCALE` on small fixed-point values.
fn mul_div_scale(a: u64, b: u64) -> (r: u64)
    requires
        a <= 2 * SCALE as u64,
        b <= 2 * SCALE as u64,
    ensures
        r as int == ((a as int) * (b as int)) / (SCALE as int),
        r <= 4 * SCALE as u64,
        a <= SCALE as u64 && b <= SCALE as u64 ==> r <= SCALE as u64,
{
    proof {
        assert((a as int) * (b as int) <= 4000000000000) by (nonlinear_arith)
            requires
                0 <= a as int <= 2000000,
                0 <= b as int <= 2000000,
        ;
        lemma_mul_div_le((a as int) * (b as int), 4000000, SCALE as int);
        if a <= SCALE as u64 && b <= SCALE as u64 {
            assert((a as int) * (b as int) <= 1000000000000) by (nonlinear_arith)
                requires
                    0 <= a as int <= 1000000,
                    0 <= b as int <= 1000000,
            ;
            lemma_mul_div_le((a as int) * (b as int), 1000000, SCALE as int);
        }
    }
    (a * b) / (SCALE as u64)
}

/// `2^e` for exponents up to 20.
fn pow2_exec(e: u64) -> (r: u64)
    requires
        e <= 20,
    ensures
        r as int == spec_pow2(e as nat),
        1 <= r <= 1048576,
{
    let mut r: u64 = 1;
    let mut k: u64 = 0;
    while k < e
        invariant
            k <= e <= 20,
            r as int == spec_pow2(k as nat),
            1 <= r <= 1048576,
        decreases e - k,
    {
        proof {
            lemma_pow2_le((k + 1) as nat, 20);
            lemma_pow2_20();
        }
        r = r * 2;
        k = k + 1;
    }
    r
}

proof fn lemma_pow2_le(a: nat, b: nat)
    requires
        a <= b,
    ensures
        0 < spec_pow2(a) <= spec_pow2(b),
    decreases b,
{
    if b > 0 {
        if a == b {
            lemma_pow2_le((a - 1) as nat, (b - 1) as nat);
        } else {
            lemma_pow2_le(a, (b - 1) as nat);
        }
    }
}

/// The fraction constants lie between `SCALE` and `2 * SCALE`.
proof fn lemma_cfrac_bounds(k: nat)
    ensures
        SCALE as int <= spec_cfrac(k) <= 2 * SCALE as int,
{
}

/// Partial products of the binary-fraction expansion stay in
/// `[SCALE, SCALE * 2^k]`.
proof fn lemma_frac_step_bounds(b: int, k: nat)
    requires
        k <= 20,
    ensures
        SCALE as int <= spec_frac_step(b, k) <= (SCALE as int) * spec_pow2(k),
    decreases k,
{
    if k == 0 {
    } else {
        lemma_frac_step_bounds(b, (k - 1) as nat);
        lemma_cfrac_bounds(k);
        lemma_pow2_le((k - 1) as nat, k);
        let prev = spec_frac_step(b, (k - 1) as nat);
        if (b / spec_pow2((20 - k) as nat)) % 2 == 1 {
            let num = prev * spec_cfrac(k);
            assert(num >= prev * (SCALE as int) && num <= prev * (2 * SCALE as int))
                by (nonlinear_arith)
                requires
                    prev >= SCALE as int,
                    SCALE as int <= spec_cfrac(k) <= 2 * SCALE as int,
                    num == prev * spec_cfrac(k),
            ;
            assert(num / (SCALE as int) >= prev) by {
                assert(prev * (SCALE as int) == (SCALE as int) * prev) by (nonlinear_arith);
                lemma_div_is_ordered(prev * (SCALE as int), num, SCALE as int);
                lemma_div_by_multiple(prev, SCALE as int);
            }
            assert(num / (SCALE as int) <= 2 * prev) by {
                assert(prev * (2 * SCALE as int) == (2 * prev) * (SCALE as int))
                    by (nonlinear_arith);
                lemma_mul_div_le(num, 2 * prev, SCALE as int);
            }
            assert(2 * prev <= (SCALE as int) * spec_pow2(k)) by (nonlinear_arith)
                requires
                    prev <= (SCALE as int) * spec_pow2((k - 1) as nat),
                    spec_pow2(k) == 2 * spec_pow2((k - 1) as nat),
            ;
        } else {
            assert(spec_pow2(k) >= spec_pow2((k - 1) as nat));
            assert((SCALE as int) * spec_pow2((k - 1) as nat) <= (SCALE as int) * spec_pow2(k))
                by (nonlinear_arith)
                requires
                    spec_pow2((k - 1) as nat) <= spec_pow2(k),
                    SCALE as int > 0,
            ;
        }
    }
}

/// One fraction constant by index.
fn cfrac(k: u64) -> (r: u64)
    requires
        1 <= k <= 20,
    ensures
        r as int == spec_cfrac(k as nat),
{
    if k == 1 {
        1414214
    } else if k == 2 {
        1189207
    } else if k == 3 {
        1090508
    } else if k == 4 {
        1044274
    } else if k == 5 {
        1021897
    } else if k == 6 {
        1010889
    } else if k == 7 {
        1005430
    } else if k == 8 {
        1002711
    } else if k == 9 {
        1001355
    } else if k == 10 {
        1000677
    } else if k == 11 {
        1000339
    } else if k == 12 {
        1000169
    } else if k == 13 {
        1000085
    } else if k == 14 {
        1000042
    } else if k == 15 {
        1000021
    } else if k == 16 {
        1000011
    } else if k == 17 {
        1000005
    } else if k == 18 {
        1000003
    } else {
        1000001
    }
}

/// `2^(r / SCALE) * SCALE` for a fractional exponent.
fn two_pow_frac(rem: u64) -> (res: u64)
    requires
        rem < SCALE as u64,
    ensures
        res as int == spec_two_pow_frac(rem as int),
        SCALE as u64 <= res,
        res as int <= (SCALE as int) * spec_pow2(20),
{
    let b: u64 = (rem * 1048576) / (SCALE as u64);
    proof {
        assert((rem as int) * 1048576 == (b as int) * (SCALE as int) + ((rem as int) * 1048576) % (
        SCALE as int));
    }
    let mut acc: u64 = SCALE as u64;
    let mut k: u64 = 1;
    let mut d: u64 = 524288;
    proof {
        lemma_pow2_20();
    }
    while k <= 20
        invariant
            1 <= k <= 21,
            d as int == spec_pow2((20 - k) as nat) || k == 21,
            acc as int == spec_frac_step(b as int, (k - 1) as nat),
            SCALE as int <= acc as int <= (SCALE as int) * spec_pow2((k - 1) as nat),
        decreases 21 - k,
    {
        proof {
            lemma_frac_step_bounds(b as int, k as nat);
            lemma_frac_step_bounds(b as int, (k - 1) as nat);
            lemma_cfrac_bounds(k as nat);
            lemma_pow2_le((k - 1) as nat, 20);
            assert((SCALE as int) * spec_pow2((k - 1) as nat) <= (SCALE as int) * spec_pow2(20))
                by (nonlinear_arith)
                requires
                    spec_pow2((k - 1) as nat) <= spec_pow2(20),
                    SCALE as int > 0,
            ;
            lemma_pow2_20();
            lemma_pow2_le((20 - k) as nat, 20);
        }
        let bit = (b / d) % 2;
        if bit == 1 {
            let c = cfrac(k);
            proof {
                assert((acc as int) * (c as int) <= 1048576000000 * 2000000) by (nonlinear_arith)
                    requires
                        0 <= acc as int <= 1048576000000,
                        0 <= c as int <= 2000000,
                ;
                lemma_mul_div_le(
                    (acc as int) * (c as int),
                    2097152000000int,
                    SCALE as int,
                );
            }
            acc = ((acc as u128 * c as u128) / (SCALE as u128)) as u64;
        }
        proof {
            if k < 20 {
                assert(spec_pow2((20 - k) as nat) == 2 * spec_pow2((20 - (k + 1)) as nat));
                lemma_div_by_multiple(spec_pow2((20 - (k + 1)) as nat), 2);
                assert((2 * spec_pow2((20 - (k + 1)) as nat)) / 2 == spec_pow2(
                    (20 - (k + 1)) as nat,
                )) by {
                    assert(spec_pow2((20 - (k + 1)) as nat) * 2 == 2 * spec_pow2(
                        (20 - (k + 1)) as nat,
                    ));
                }
            }
        }
        if k < 20 {
            d = d / 2;
        }
        k = k + 1;
    }
    acc
}

/// `2^(-z / SCALE) * SCALE` for `z` in `[0, 10 * SCALE]`.
fn exp2_neg(z: u64) -> (r: u64)
    requires
        z <= 10 * SCALE as u64,
    ensures
        r as int == spec_exp2_neg(z as int),
        r <= SCALE as u64,
{
    if z == 0 {
        SCALE as u64
    } else {
        let n = z / (SCALE as u64);
        let rem = z % (SCALE as u64);
        proof {
            lemma_mul_div_le(z as int, 10, SCALE as int);
        }
        let p2 = pow2_exec(n);
        let frac = two_pow_frac(rem);
        proof {
            lemma_pow2_20();
            lemma_pow2_le(n as nat, 20);
            assert((p2 as int) * (frac as int) <= 1048576 * 1048576000000
                && (p2 as int) * (frac as int) >= (SCALE as int)) by (nonlinear_arith)
                requires
                    1 <= p2 as int <= 1048576,
                    SCALE as int <= frac as int <= 1048576000000,
            ;
            lemma_div_is_ordered_helper(
                (SCALE as int) * (SCALE as int),
                (p2 as int) * (frac as int),
            );
        }
        let denom: u128 = (p2 as u128) * (frac as u128);
        let r = (((SCALE as u128) * (SCALE as u128)) / denom) as u64;
        r
    }
}

/// `(SCALE * SCALE) / d <= SCALE` whenever `d >= SCALE`.
proof fn lemma_div_is_ordered_helper(num: int, d: int)
    requires
        num == (SCALE as int) * (SCALE as int),
        d >= SCALE as int,
    ensures
        num / d <= SCALE as int,
        num / d >= 0,
{
    assert(num <= (SCALE as int) * d) by (nonlinear_arith)
        requires
            num == (SCALE as int) * (SCALE as int),
            d >= SCALE as int,
    ;
    lemma_mul_div_le(num, SCALE as int, d);
}

impl EasingFunction {
    /// Applies the curve to a fixed-point progress value.  Progress is
    /// clamped into `[0, SCALE]`; the eased result is again in
    /// `[0, SCALE]`.
    pub fn ease(&self, t: i64) -> (r: i64)
        ensures
            r as int == spec_ease(*self, t as int),
            0 <= r <= SCALE,
    {
        let q: u64 = if t < 0 {
            0
        } else if t > SCALE {
            SCALE as u64
        } else {
            t as u64
        };
        let half: u64 = (SCALE as u64) / 2;
        let s: u64 = SCALE as u64;
        let r: u64 = match self {
            EasingFunction::QuadIn => ease_in_pow(q, 2),
            EasingFunction::QuadOut => s - ease_in_pow(s - q, 2),
            EasingFunction::QuadInOut => {
                if q < half {
                    ease_in_pow(2 * q, 2) / 2
                } else {
                    s - ease_in_pow(2 * s - 2 * q, 2) / 2
                }
            },
            EasingFunction::CubicIn => ease_in_pow(q, 3),
            EasingFunction::CubicOut => s - ease_in_pow(s - q, 3),
            EasingFunction::CubicInOut => {
                if q < half {
                    ease_in_pow(2 * q, 3) / 2
                } else {
                    s - ease_in_pow(2 * s - 2 * q, 3) / 2
                }
            },
            EasingFunction::QuartIn => ease_in_pow(q, 4),
            EasingFunction::QuartOut => s - ease_in_pow(s - q, 4),
            EasingFunction::QuartInOut => {
                if q < half {
                    ease_in_pow(2 * q, 4) / 2
                } else {
                    s - ease_in_pow(2 * s - 2 * q, 4) / 2
                }
            },
            EasingFunction::QuintIn => ease_in_pow(q, 5),
            EasingFunction::QuintOut => s - ease_in_pow(s - q, 5),
            EasingFunction::QuintInOut => {
                if q < half {
                    ease_in_pow(2 * q, 5) / 2
                } else {
                    s - ease_in_pow(2 * s - 2 * q, 5) / 2
                }
            },
            EasingFunction::CircIn => {
                let qq = mul_div_scale(q, q);
                s - ssqrt(s - qq)
            },
            EasingFunction::CircOut => {
                let u = s - q;
                let uu = mul_div_scale(u, u);
                ssqrt(s - uu)
            },
            EasingFunction::CircInOut => {
                if q < half {
                    let u = 2 * q;
                    let uu = mul_div_scale(u, u);
                    (s - ssqrt(s - uu)) / 2
                } else {
                    let u = 2 * s - 2 * q;
                    let uu = mul_div_scale(u, u);
                    (ssqrt(s - uu) + s) / 2
                }
            },
            EasingFunction::ExpoIn => {
                if q == 0 {
                    0
                } else {
                    exp2_neg(10 * s - 10 * q)
                }
            },
            EasingFunction::ExpoOut => {
                if q == s {
                    s
                } else {
                    s - exp2_neg(10 * q)
                }
            },
            EasingFunction::ExpoInOut => {
                if q == 0 {
                    0
                } else if q == s {
                    s
                } else if q < half {
                    exp2_neg(10 * s - 20 * q) / 2
                } else {
                    (2 * s - exp2_neg(20 * q - 10 * s)) / 2
                }
            },
        };
        r as i64
    }
}

// ---------------------------------------------------------------------------
// Spring integrator.
// ---------------------------------------------------------------------------

/// One integration step of the spring: forces, acceleration, then velocity
/// and position with a fixed step of 10 model time units.  A zero mass
/// yields zero acceleration.
pub open spec fn spec_spring_step(
    pos: int,
    vel: int,
    target: int,
    props: SpringProperties,
) -> (int, int) {
    let sf = -tdiv((props.stiffness as int) * sat64(pos - target), 1_000_000_000_000);
    let df = -tdiv((props.damping as int) * vel, 1_000_000_000);
    let accel = tdiv((sf + df) * (SCALE as int), props.mass as int);
    let vel2 = sat64(vel + accel * 10);
    let pos2 = sat64(pos + vel2 * 10);
    (pos2, vel2)
}

/// Spring state after a number of whole-frame steps, starting at rest on
/// the start value.
pub open spec fn spec_spring_state(
    steps: nat,
    start: int,
    target: int,
    props: SpringProperties,
) -> (int, int)
    decreases steps,
{
    if steps == 0 {
        (start, 0)
    } else {
        let prev = spec_spring_state((steps - 1) as nat, start, target, props);
        spec_spring_step(prev.0, prev.1, target, props)
    }
}

/// The spring's position at a frame: one integration step for every frame
/// of distance from the segment start, none when the frame is at or before
/// the start.
pub open spec fn spec_spring_value(
    curr_frame: int,
    start_value: int,
    target_value: int,
    start_frame: int,
    props: SpringProperties,
) -> int {
    let steps: nat = if curr_frame > start_frame {
        (curr_frame - start_frame) as nat
    } else {
        0
    };
    spec_spring_state(steps, start_value, target_value, props).0
}

/// Integrates the spring from the segment start to the current frame and
/// returns the resulting position.
pub fn calculate_spring_value(
    curr_frame: i64,
    start_value: i64,
    target_value: i64,
    start_frame: i64,
    _end_frame: i64,
    spring_props: &SpringProperties,
) -> (r: i64)
    ensures
        r as int == spec_spring_value(
            curr_frame as int,
            start_value as int,
            target_value as int,
            start_frame as int,
            *spring_props,
        ),
{
    let steps: u64 = if curr_frame > start_frame {
        ((curr_frame as i128) - (start_frame as i128)) as u64
    } else {
        0
    };
    let mut spring_state = SpringState { last_val: start_value, velocity: 0 };
    let mut position: i64 = start_value;
    let mut i: u64 = 0;
    while i < steps
        invariant
            i <= steps,
            (position as int, spring_state.velocity as int) == spec_spring_state(
                i as nat,
                start_value as int,
                target_value as int,
                *spring_props,
            ),
        decreases steps - i,
    {
        let diff = sat_i128((position as i128) - (target_value as i128));
        proof {
            assert(-0x4000_0000_0000_0000_0000_0000_0000_0000
                <= (spring_props.stiffness as int) * (diff as int)
                <= 0x4000_0000_0000_0000_0000_0000_0000_0000) by (nonlinear_arith)
                requires
                    -0x8000_0000_0000_0000 <= spring_props.stiffness as int
                        <= 0x7fff_ffff_ffff_ffff,
                    -0x7fff_ffff_ffff_ffff <= diff as int <= 0x7fff_ffff_ffff_ffff,
            ;
            assert(-0x4000_0000_0000_0000_0000_0000_0000_0000
                <= (spring_props.damping as int) * (spring_state.velocity as int)
                <= 0x4000_0000_0000_0000_0000_0000_0000_0000) by (nonlinear_arith)
                requires
                    -0x8000_0000_0000_0000 <= spring_props.damping as int
                        <= 0x7fff_ffff_ffff_ffff,
                    -0x7fff_ffff_ffff_ffff <= spring_state.velocity as int
                        <= 0x7fff_ffff_ffff_ffff,
            ;
        }
        let sfn: i128 = (spring_props.stiffness as i128) * (diff as i128);
        proof {
            lemma_tdiv_quotient_bound(
                sfn as int,
                1_000_000_000_000,
                100_000_000_000_000_000_000_000_000,
            );
        }
        let spring_force: i128 = -tdiv_i128(sfn, 1_000_000_000_000);
        let dfn: i128 = (spring_props.damping as i128) * (spring_state.velocity as i128);
        proof {
            lemma_tdiv_quotient_bound(
                dfn as int,
                1_000_000_000,
                100_000_000_000_000_000_000_000_000_000,
            );
        }
        let damping_force: i128 = -tdiv_i128(dfn, 1_000_000_000);
        proof {
            assert(-0x1_0000_0000_0000_0000_0000_0000_0000_0000
                <= ((spring_force as int) + (damping_force as int)) * (SCALE as int)
                <= 0x1_0000_0000_0000_0000_0000_0000_0000_0000) by (nonlinear_arith)
                requires
                    -200_000_000_000_000_000_000_000_000_000
                        <= (spring_force as int) + (damping_force as int)
                        <= 200_000_000_000_000_000_000_000_000_000,
                    SCALE as int == 1000000,
            ;
        }
        let num: i128 = (spring_force + damping_force) * (SCALE as i128);
        let acceleration: i128 = tdiv_i128(num, spring_props.mass as i128);
        let vel2: i64 = sat_i128((spring_state.velocity as i128) + acceleration * 10);
        let pos2: i64 = sat_i128((position as i128) + (vel2 as i128) * 10);
        spring_state.velocity = vel2;
        position = pos2;
        i = i + 1;
    }
    position
}

// ---------------------------------------------------------------------------
// Interpolation between a pair of rendered keyframes.
// ---------------------------------------------------------------------------

/// The value interpolated between an earlier keyframe `(a_val, a_abs)` and a
/// later one `(b_val, b_abs)` at the current frame.
///
/// Linear and eased interpolation turn the frame position into a progress
/// ratio and blend the two values; when both keyframes sit on the same frame
/// the earlier keyframe's value is returned unchanged (the deterministic
/// fallback for equal-offset neighbours).  Spring interpolation ignores the
/// progress ratio and integrates over the frame distance from the earlier
/// keyframe.
pub open spec fn spec_interpolate(
    a_val: int,
    a_abs: int,
    b_val: int,
    b_abs: int,
    curr: int,
    interp: InterpolationType,
) -> int {
    let range = b_abs - a_abs;
    let progress = sat64(tdiv(sat64(curr - a_abs) * (SCALE as int), range));
    match interp {
        InterpolationType::Linear => {
            if range == 0 {
                a_val
            } else {
                sat64(a_val + tdiv(sat64(b_val - a_val) * progress, SCALE as int))
            }
        },
        InterpolationType::EasingFunction(f) => {
            if range == 0 {
                a_val
            } else {
                sat64(a_val + tdiv(sat64(b_val - a_val) * spec_ease(f, progress), SCALE as int))
            }
        },
        InterpolationType::Spring(props) => spec_spring_value(curr, a_val, b_val, a_abs, props),
    }
}

/// Interpolates between two rendered keyframes at the current frame, using
/// the given interpolation mode.
pub fn interpolate_rendered_keyframes(
    first_ren_keyframe: &RenderedKeyframe,
    second_ren_keyframe: &RenderedKeyframe,
    curr_frame: i64,
    interpolation_type: InterpolationType,
    _fps: i16,
) -> (r: i64)
    ensures
        r as int == spec_interpolate(
            first_ren_keyframe.keyframe.value as int,
            first_ren_keyframe.absolute_frame as int,
            second_ren_keyframe.keyframe.value as int,
            second_ren_keyframe.absolute_frame as int,
            curr_frame as int,
            interpolation_type,
        ),
{
    let a_val = first_ren_keyframe.keyframe.value;
    let a_abs = first_ren_keyframe.absolute_frame;
    let b_val = second_ren_keyframe.keyframe.value;
    let b_abs = second_ren_keyframe.absolute_frame;
    let range: i128 = (b_abs as i128) - (a_abs as i128);
    let position_in_range: i64 = sat_i128((curr_frame as i128) - (a_abs as i128));
    proof {
        assert(-0x8_0000_0000_0000_0000_0000_0000
            <= (position_in_range as int) * (SCALE as int)
            <= 0x8_0000_0000_0000_0000_0000_0000) by (nonlinear_arith)
            requires
                -0x7fff_ffff_ffff_ffff <= position_in_range as int <= 0x7fff_ffff_ffff_ffff,
                SCALE as int == 1000000,
        ;
    }
    let progress: i64 = sat_i128(
        tdiv_i128((position_in_range as i128) * (SCALE as i128), range),
    );
    match interpolation_type {
        InterpolationType::Linear => {
            if range == 0 {
                a_val
            } else {
                let value_diff: i64 = sat_i128((b_val as i128) - (a_val as i128));
                proof {
                    lemma_prod_sat_bound(value_diff as int, progress as int);
                }
                let prod: i128 = (value_diff as i128) * (progress as i128);
                sat_i128((a_val as i128) + tdiv_i128(prod, SCALE as i128))
            }
        },
        InterpolationType::EasingFunction(easing_function) => {
            if range == 0 {
                a_val
            } else {
                let eased = easing_function.ease(progress);
                let value_diff: i64 = sat_i128((b_val as i128) - (a_val as i128));
                proof {
                    lemma_prod_sat_bound(value_diff as int, eased as int);
                }
                let prod: i128 = (value_diff as i128) * (eased as i128);
                sat_i128((a_val as i128) + tdiv_i128(prod, SCALE as i128))
            }
        },
        InterpolationType::Spring(spring_properties) => calculate_spring_value(
            curr_frame,
            a_val,
            b_val,
            a_abs,
            b_abs,
            &spring_properties,
        ),
    }
}

/// Products of two saturated 64-bit values stay well inside the 128-bit
/// range.
proof fn lemma_prod_sat_bound(a: int, b: int)
    requires
        -(SAT_MAX as int) <= a <= SAT_MAX as int,
        -(SAT_MAX as int) <= b <= SAT_MAX as int,
    ensures
        -(0x7fff_ffff_ffff_ffff_ffff_ffff_ffff_ffff) <= a * b
            <= 0x7fff_ffff_ffff_ffff_ffff_ffff_ffff_ffff,
{
    assert(a * b <= SAT_MAX as int * SAT_MAX as int && a * b >= -(SAT_MAX as int
        * SAT_MAX as int)) by (nonlinear_arith)
        requires
            -(SAT_MAX as int) <= a <= SAT_MAX as int,
            -(SAT_MAX as int) <= b <= SAT_MAX as int,
    ;
}

} // verus!
