//! Fixed-point scalar arithmetic for the simulation core.
//!
//! A fixed-point value is an `i64` holding a real quantity scaled by
//! `FX_ONE`, so one world unit is `FX_ONE` ticks. Products and quotients
//! round toward zero, and every operation carries an exact specification.

use vstd::prelude::*;
use vstd::arithmetic::div_mod::lemma_div_is_ordered;
use vstd::arithmetic::div_mod::lemma_div_multiples_vanish;
use vstd::arithmetic::div_mod::lemma_div_pos_is_pos;
use vstd::arithmetic::div_mod::lemma_div_nonincreasing;

verus! {

/// One world unit, in fixed-point ticks.
pub const FX_ONE: i64 = 65536;

/// Largest magnitude the fixed-point multiplier accepts; the product of two
/// such values, scaled down by `FX_ONE`, still fits in an `i64`.
pub const FX_LIM: i64 = 0x80_0000_0000;

/// Magnitude of a mathematical integer.
pub open spec fn abs_i(a: int) -> int {
    if a >= 0 {
        a
    } else {
        -a
    }
}

/// Division rounding toward zero, for a positive divisor; this is what the
/// hardware computes for signed operands.
pub open spec fn tdiv(a: int, b: int) -> int {
    if a >= 0 {
        a / b
    } else {
        -((-a) / b)
    }
}

/// The fixed-point product: `a * b / FX_ONE`, rounded toward zero.
pub open spec fn fxmul(a: int, b: int) -> int {
    tdiv(a * b, FX_ONE as int)
}

/// The fixed-point quotient: `a * FX_ONE / b`, rounded toward zero.
pub open spec fn fxdiv(a: int, b: int) -> int {
    tdiv(a * (FX_ONE as int), b)
}

/// Linear interpolation from `a` toward `b` by the fixed-point fraction `t`.
pub open spec fn fxlerp(a: int, b: int, t: int) -> int {
    a + fxmul(b - a, t)
}

pub open spec fn min_i(a: int, b: int) -> int {
    if a <= b {
        a
    } else {
        b
    }
}

pub open spec fn max_i(a: int, b: int) -> int {
    if a >= b {
        a
    } else {
        b
    }
}

pub open spec fn clamp_i(a: int, lo: int, hi: int) -> int {
    if a < lo {
        lo
    } else if a > hi {
        hi
    } else {
        a
    }
}

pub proof fn lemma_abs_mul(a: int, b: int)
    by (nonlinear_arith)
    ensures
        abs_i(a * b) == abs_i(a) * abs_i(b),
{
}

pub proof fn lemma_mul_le_nonneg(a: int, b: int, c: int, d: int)
    by (nonlinear_arith)
    requires
        0 <= a <= c,
        0 <= b <= d,
    ensures
        a * b <= c * d,
{
}

/// A square is nonnegative and bounded by the square of a bound.
pub proof fn lemma_sq_bound(x: int, lim: int)
    by (nonlinear_arith)
    requires
        abs_i(x) <= lim,
    ensures
        0 <= x * x <= lim * lim,
{
}

proof fn lemma_sign_mul(a: int, b: int)
    by (nonlinear_arith)
    ensures
        (a < 0 && b > 0) ==> a * b < 0,
        (a > 0 && b < 0) ==> a * b < 0,
        (a >= 0 && b >= 0) ==> a * b >= 0,
        (a <= 0 && b <= 0) ==> a * b >= 0,
{
}

/// The magnitude of a truncating quotient is the quotient of the magnitude,
/// and dividing by at least one never grows a value.
pub proof fn lemma_tdiv_abs(x: int, d: int)
    requires
        d >= 1,
    ensures
        abs_i(tdiv(x, d)) == abs_i(x) / d,
        abs_i(tdiv(x, d)) <= abs_i(x),
        d * abs_i(tdiv(x, d)) <= abs_i(x),
{
    if x >= 0 {
        lemma_div_pos_is_pos(x, d);
    } else {
        lemma_div_pos_is_pos(-x, d);
    }
    lemma_div_nonincreasing(abs_i(x), d);
    vstd::arithmetic::div_mod::lemma_fundamental_div_mod(abs_i(x), d);
    vstd::arithmetic::div_mod::lemma_mod_division_less_than_divisor(abs_i(x), d);
}

/// If `|a| * |b| <= c * FX_ONE` then the fixed-point product stays within `c`.
pub proof fn lemma_fxmul_bound(a: int, b: int, c: int)
    requires
        0 <= c,
        abs_i(a) * abs_i(b) <= c * (FX_ONE as int),
    ensures
        abs_i(fxmul(a, b)) <= c,
{
    lemma_abs_mul(a, b);
    lemma_tdiv_abs(a * b, FX_ONE as int);
    lemma_div_is_ordered(abs_i(a * b), c * (FX_ONE as int), FX_ONE as int);
    lemma_div_multiples_vanish(c, FX_ONE as int);
}

/// A fixed-point product of nonnegative factors is nonnegative.
pub proof fn lemma_fxmul_nonneg(a: int, b: int)
    requires
        0 <= a,
        0 <= b,
    ensures
        0 <= fxmul(a, b),
{
    lemma_sign_mul(a, b);
    lemma_div_pos_is_pos(a * b, FX_ONE as int);
}

/// Multiplying by a fraction of at most one never grows a value.
pub proof fn lemma_fxmul_unit(a: int, t: int)
    requires
        abs_i(t) <= FX_ONE as int,
    ensures
        abs_i(fxmul(a, t)) <= abs_i(a),
{
    lemma_mul_le_nonneg(abs_i(a), abs_i(t), abs_i(a), FX_ONE as int);
    lemma_fxmul_bound(a, t, abs_i(a));
}

/// The interpolant lies between its endpoints when the fraction is in [0, 1].
pub proof fn lemma_fxlerp_between(a: int, b: int, t: int)
    requires
        0 <= t <= FX_ONE as int,
    ensures
        min_i(a, b) <= fxlerp(a, b, t) <= max_i(a, b),
{
    let d = b - a;
    let s = FX_ONE as int;
    if d >= 0 {
        lemma_sign_mul(d, t);
        lemma_mul_le_nonneg(d, t, d, s);
        lemma_div_is_ordered(d * t, d * s, s);
        lemma_div_multiples_vanish(d, s);
        lemma_div_pos_is_pos(d * t, s);
    } else {
        lemma_sign_mul(-d, t);
        lemma_mul_le_nonneg(-d, t, -d, s);
        lemma_div_is_ordered((-d) * t, (-d) * s, s);
        lemma_div_multiples_vanish(-d, s);
        lemma_div_pos_is_pos((-d) * t, s);
        assert((-d) * t == -(d * t)) by (nonlinear_arith);
        assert((-d) * s == -(d * s)) by (nonlinear_arith);
    }
}

/// A value whose square is bounded by a square is bounded by the root.
pub proof fn lemma_sqrt_le(n: int, s: int, b: int)
    by (nonlinear_arith)
    requires
        0 <= s,
        0 <= b,
        s * s <= n,
        n <= b * b,
    ensures
        s <= b,
{
}

/// A value whose square is under a strict square bound is under the root.
pub proof fn lemma_sqrt_lt(n: int, s: int, b: int)
    by (nonlinear_arith)
    requires
        0 <= s,
        0 <= b,
        s * s <= n,
        n < b * b,
    ensures
        s < b,
{
}

/// A root whose square's upper neighbourhood exceeds a square bound is at
/// least the bound's root.
pub proof fn lemma_sqrt_ge(n: int, s: int, b: int)
    by (nonlinear_arith)
    requires
        0 <= s,
        0 <= b,
        n < (s + 1) * (s + 1),
        b * b <= n,
    ensures
        s >= b,
{
}

/// A lower bound on a quotient from a lower bound on the dividend.
pub proof fn lemma_div_ge(a: int, b: int, k: int)
    requires
        b >= 1,
        0 <= k,
        k * b <= a,
    ensures
        a / b >= k,
{
    lemma_div_is_ordered(k * b, a, b);
    assert(k * b == b * k) by (nonlinear_arith);
    lemma_div_multiples_vanish(k, b);
}

/// Every nonnegative integer has an integer square root, so `sqrt_i` denotes
/// a genuine witness.
pub proof fn lemma_sqrt_exists(n: nat)
    ensures
        is_sqrt(n as int, sqrt_i(n as int)),
    decreases n,
{
    if n == 0 {
        assert(is_sqrt(0, 0)) by (nonlinear_arith);
        assert(exists|r: int| is_sqrt(0, r));
    } else {
        lemma_sqrt_exists((n - 1) as nat);
        let s = sqrt_i(n as int - 1);
        if n as int == (s + 1) * (s + 1) {
            assert(is_sqrt(n as int, s + 1)) by (nonlinear_arith)
                requires
                    0 <= s,
                    n as int == (s + 1) * (s + 1),
            ;
        } else {
            assert(is_sqrt(n as int, s)) by (nonlinear_arith)
                requires
                    0 <= s,
                    s * s <= n as int - 1,
                    n as int - 1 < (s + 1) * (s + 1),
                    n as int != (s + 1) * (s + 1),
            ;
        }
        assert(exists|r: int| is_sqrt(n as int, r));
    }
}

/// Nonnegative squaring is monotone.
pub proof fn lemma_sq_monotone(a: int, b: int)
    by (nonlinear_arith)
    requires
        0 <= a <= b,
    ensures
        a * a <= b * b,
{
}

/// The interpolant obeys the affine bound of its endpoints: up to one unit of
/// rounding, `|lerp(a, b, t)|` is at most the t-weighted blend of the bounds.
pub proof fn lemma_fxlerp_affine(a: int, b: int, t: int, la: int, lb: int)
    requires
        0 <= t <= FX_ONE as int,
        abs_i(a) <= la,
        abs_i(b) <= lb,
    ensures
        abs_i(fxlerp(a, b, t)) * (FX_ONE as int) <= la * ((FX_ONE as int) - t) + lb * t + (
        FX_ONE as int),
{
    let s = FX_ONE as int;
    let x = (b - a) * t;
    let r = fxlerp(a, b, t);
    if x >= 0 {
        vstd::arithmetic::div_mod::lemma_fundamental_div_mod(x, s);
        vstd::arithmetic::div_mod::lemma_mod_division_less_than_divisor(x, s);
        let q = x / s;
        let rho = x % s;
        assert(abs_i(r) * s <= la * (s - t) + lb * t + s) by (nonlinear_arith)
            requires
                r == a + q,
                x == s * q + rho,
                0 <= rho < s,
                x == (b - a) * t,
                -la <= a <= la,
                -lb <= b <= lb,
                0 <= t <= s,
                s == 65536,
                abs_i(r) == (if r >= 0 { r } else { -r as int }),
        ;
    } else {
        vstd::arithmetic::div_mod::lemma_fundamental_div_mod(-x, s);
        vstd::arithmetic::div_mod::lemma_mod_division_less_than_divisor(-x, s);
        let q = (-x) / s;
        let rho = (-x) % s;
        assert(abs_i(r) * s <= la * (s - t) + lb * t + s) by (nonlinear_arith)
            requires
                r == a - q,
                -x == s * q + rho,
                0 <= rho < s,
                x == (b - a) * t,
                -la <= a <= la,
                -lb <= b <= lb,
                0 <= t <= s,
                s == 65536,
                abs_i(r) == (if r >= 0 { r } else { -r as int }),
        ;
    }
}

/// Rescaling two components by `mx / hs` with truncation keeps the summed
/// squares within `mx` squared, whenever `hs` dominates the original length.
pub proof fn lemma_clamp_speed_sq(aa: int, ab: int, qa: int, qb: int, mx: int, hs: int)
    by (nonlinear_arith)
    requires
        0 <= aa,
        0 <= ab,
        0 <= qa,
        0 <= qb,
        0 <= mx,
        1 <= hs,
        qa * hs <= aa * mx,
        qb * hs <= ab * mx,
        aa * aa + ab * ab <= hs * hs,
    ensures
        qa * qa + qb * qb <= mx * mx,
{
    assert((qa * hs) * (qa * hs) <= (aa * mx) * (aa * mx));
    assert((qb * hs) * (qb * hs) <= (ab * mx) * (ab * mx));
    assert((qa * qa + qb * qb) * (hs * hs) <= (aa * aa + ab * ab) * (mx * mx));
    assert((aa * aa + ab * ab) * (mx * mx) <= (hs * hs) * (mx * mx));
}

/// `|a|`, as an unsigned word.
pub fn fx_abs_u(a: i64) -> (r: u64)
    requires
        a != i64::MIN,
    ensures
        r == abs_i(a as int),
{
    if a < 0 {
        (-a) as u64
    } else {
        a as u64
    }
}

/// The fixed-point product of two in-range values.
pub fn fx_mul(a: i64, b: i64) -> (r: i64)
    requires
        -FX_LIM <= a <= FX_LIM,
        -FX_LIM <= b <= FX_LIM,
    ensures
        r == fxmul(a as int, b as int),
{
    let neg: bool = (a < 0) != (b < 0);
    let ua: u64 = fx_abs_u(a);
    let ub: u64 = fx_abs_u(b);
    proof {
        lemma_mul_le_nonneg(ua as int, ub as int, FX_LIM as int, FX_LIM as int);
    }
    let p: u128 = (ua as u128) * (ub as u128);
    let q: u128 = p / (FX_ONE as u128);
    proof {
        lemma_div_is_ordered(p as int, (FX_LIM as int) * (FX_LIM as int), FX_ONE as int);
        lemma_abs_mul(a as int, b as int);
        lemma_sign_mul(a as int, b as int);
        lemma_tdiv_abs((a as int) * (b as int), FX_ONE as int);
    }
    let qi: i64 = q as i64;
    if neg {
        -qi
    } else {
        qi
    }
}

/// The fixed-point quotient of an in-range value by a positive divisor.
pub fn fx_div(a: i64, b: i64) -> (r: i64)
    requires
        -FX_LIM <= a <= FX_LIM,
        1 <= b,
    ensures
        r == fxdiv(a as int, b as int),
{
    let ua: u64 = fx_abs_u(a);
    proof {
        lemma_mul_le_nonneg(ua as int, FX_ONE as int, FX_LIM as int, FX_ONE as int);
    }
    let p: u128 = (ua as u128) * (FX_ONE as u128);
    let q: u128 = p / (b as u128);
    proof {
        lemma_div_nonincreasing(p as int, b as int);
        lemma_div_pos_is_pos(p as int, b as int);
        lemma_abs_mul(a as int, FX_ONE as int);
        lemma_sign_mul(a as int, FX_ONE as int);
        lemma_tdiv_abs((a as int) * (FX_ONE as int), b as int);
    }
    let qi: i64 = q as i64;
    if a < 0 {
        -qi
    } else {
        qi
    }
}

/// If `|a| * FX_ONE <= c * b` then the fixed-point quotient stays within `c`.
pub proof fn lemma_fxdiv_bound(a: int, b: int, c: int)
    requires
        1 <= b,
        0 <= c,
        abs_i(a) * (FX_ONE as int) <= c * b,
    ensures
        abs_i(fxdiv(a, b)) <= c,
{
    lemma_abs_mul(a, FX_ONE as int);
    lemma_tdiv_abs(a * (FX_ONE as int), b);
    lemma_div_is_ordered(abs_i(a) * (FX_ONE as int), c * b, b);
    assert(c * b == b * c) by (nonlinear_arith);
    lemma_div_multiples_vanish(c, b);
}

/// The truncating combined product and quotient `a * m / d`.
pub fn mul_div(a: i64, m: i64, d: i64) -> (r: i64)
    requires
        -0x200_0000_0000_0000 <= a <= 0x200_0000_0000_0000,
        0 <= m <= FX_LIM,
        1 <= d,
        abs_i(a as int) * (m as int) <= (FX_LIM as int) * (d as int),
    ensures
        r == tdiv((a as int) * (m as int), d as int),
        abs_i(r as int) <= FX_LIM,
        abs_i(r as int) * d <= abs_i(a as int) * (m as int),
{
    let ua: u64 = fx_abs_u(a);
    proof {
        lemma_mul_le_nonneg(ua as int, m as int, 0x200_0000_0000_0000, FX_LIM as int);
    }
    let p: u128 = (ua as u128) * (m as u128);
    let q: u128 = p / (d as u128);
    proof {
        lemma_abs_mul(a as int, m as int);
        lemma_sign_mul(a as int, m as int);
        lemma_tdiv_abs((a as int) * (m as int), d as int);
        lemma_div_is_ordered(p as int, (FX_LIM as int) * (d as int), d as int);
        lemma_div_multiples_vanish(FX_LIM as int, d as int);
        vstd::arithmetic::div_mod::lemma_fundamental_div_mod(p as int, d as int);
        vstd::arithmetic::div_mod::lemma_mod_division_less_than_divisor(p as int, d as int);
    }
    let qi: i64 = q as i64;
    if a < 0 {
        -qi
    } else {
        qi
    }
}

/// Linear interpolation from `a` toward `b` by the fixed-point fraction `t`.
pub fn fx_lerp(a: i64, b: i64, t: i64) -> (r: i64)
    requires
        -FX_LIM / 2 <= a <= FX_LIM / 2,
        -FX_LIM / 2 <= b <= FX_LIM / 2,
        0 <= t <= FX_ONE,
    ensures
        r == fxlerp(a as int, b as int, t as int),
        min_i(a as int, b as int) <= r <= max_i(a as int, b as int),
{
    proof {
        lemma_fxlerp_between(a as int, b as int, t as int);
    }
    let d: i64 = b - a;
    a + fx_mul(d, t)
}

pub fn fx_min(a: i64, b: i64) -> (r: i64)
    ensures
        r == min_i(a as int, b as int),
{
    if a <= b {
        a
    } else {
        b
    }
}

pub fn fx_max(a: i64, b: i64) -> (r: i64)
    ensures
        r == max_i(a as int, b as int),
{
    if a >= b {
        a
    } else {
        b
    }
}

pub fn fx_clamp(a: i64, lo: i64, hi: i64) -> (r: i64)
    requires
        lo <= hi,
    ensures
        r == clamp_i(a as int, lo as int, hi as int),
{
    if a < lo {
        lo
    } else if a > hi {
        hi
    } else {
        a
    }
}

/// `r` is the integer square root of `n`.
pub open spec fn is_sqrt(n: int, r: int) -> bool {
    0 <= r && r * r <= n && n < (r + 1) * (r + 1)
}

/// The integer square root, rounded down.
pub open spec fn sqrt_i(n: int) -> int {
    choose|r: int| is_sqrt(n, r)
}

/// The integer square root, rounded up.
pub open spec fn sqrt_up_i(n: int) -> int {
    if sqrt_i(n) * sqrt_i(n) == n {
        sqrt_i(n)
    } else {
        sqrt_i(n) + 1
    }
}

proof fn lemma_sqrt_witness_unique(n: int, r1: int, r2: int)
    by (nonlinear_arith)
    requires
        0 <= r1,
        r1 * r1 <= n,
        n < (r1 + 1) * (r1 + 1),
        0 <= r2,
        r2 * r2 <= n,
        n < (r2 + 1) * (r2 + 1),
    ensures
        r1 == r2,
{
}

/// Any witness of `is_sqrt` is the value `sqrt_i` denotes.
pub proof fn lemma_sqrt_unique(n: int, r: int)
    requires
        is_sqrt(n, r),
    ensures
        sqrt_i(n) == r,
{
    assert(is_sqrt(n, sqrt_i(n))) by {
        assert(exists|x: int| is_sqrt(n, x));
    }
    lemma_sqrt_witness_unique(n, r, sqrt_i(n));
}

/// The integer square root of `x`, rounded down.
pub fn isqrt_u(x: u128) -> (r: u64)
    requires
        x < 0x10000000000000000000000000,
    ensures
        is_sqrt(x as int, r as int),
        r == sqrt_i(x as int),
        r < 0x4000000000000,
{
    let mut lo: u64 = 0;
    let mut hi: u64 = 0x4000000000000 - 1;
    proof {
        assert((0x4000000000000 as int) * (0x4000000000000 as int) > x as int);
    }
    while lo < hi
        invariant
            lo <= hi,
            hi < 0x4000000000000,
            (lo as int) * (lo as int) <= x as int,
            (x as int) < ((hi as int) + 1) * ((hi as int) + 1),
        decreases hi - lo,
    {
        let mid: u64 = lo + (hi - lo + 1) / 2;
        proof {
            lemma_mul_le_nonneg(mid as int, mid as int, 0x4000000000000, 0x4000000000000);
        }
        let m: u128 = (mid as u128) * (mid as u128);
        if m <= x {
            lo = mid;
        } else {
            hi = mid - 1;
        }
    }
    proof {
        lemma_sqrt_unique(x as int, lo as int);
    }
    lo
}

/// The integer square root of `x`, rounded up.
pub fn isqrt_up_u(x: u128) -> (r: u64)
    requires
        x < 0x10000000000000000000000000,
    ensures
        r == sqrt_up_i(x as int),
        (x as int) <= (r as int) * (r as int),
        r <= 0x4000000000000,
{
    let s: u64 = isqrt_u(x);
    let sq: u128 = (s as u128) * (s as u128);
    if sq == x {
        s
    } else {
        proof {
            assert((s as int) * (s as int) <= x as int);
            assert((x as int) <= ((s as int) + 1) * ((s as int) + 1));
        }
        s + 1
    }
}

} // verus!
