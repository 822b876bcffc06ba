//! Saturating fixed-point arithmetic.
//!
//! Every physical quantity in the simulation is an `i64` holding the real
//! value scaled by [`SCALE`].  All operations saturate at magnitude [`MAG`]
//! (one million whole units), so no arithmetic in the simulation can overflow
//! or diverge; division truncates toward zero, as the corresponding floating
//! point computation rounds toward the result of the real division.

use vstd::prelude::*;

verus! {

use vstd::arithmetic::div_mod::lemma_fundamental_div_mod;
use vstd::arithmetic::div_mod::lemma_fundamental_div_mod_converse;

/// One whole unit: a value `v` represents the real number `v / SCALE`.
pub const SCALE: i64 = 1_000_000;

/// Largest magnitude any quantity may hold (one million whole units);
/// arithmetic saturates here instead of overflowing.
pub const MAG: i64 = 1_000_000_000_000;

/// The value is within the representable band.
pub open spec fn fx_ok(a: i64) -> bool {
    -MAG <= a <= MAG
}

/// Saturate an unbounded integer into the representable band.
pub open spec fn sat(v: int) -> int {
    if v > MAG { MAG as int } else if v < -(MAG as int) { -(MAG as int) } else { v }
}

/// Division truncating toward zero (the right-hand side is positive).
pub open spec fn div_tz(a: int, b: int) -> int
    recommends b > 0,
{
    if a >= 0 { a / b } else { -((-a) / b) }
}

/// Magnitude of an integer.
pub open spec fn mag(a: int) -> int {
    if a >= 0 { a } else { -a }
}

/// What fixed-point addition returns.
pub open spec fn fx_add(a: int, b: int) -> int {
    sat(a + b)
}

/// What fixed-point subtraction returns.
pub open spec fn fx_sub(a: int, b: int) -> int {
    sat(a - b)
}

/// What fixed-point multiplication returns.
pub open spec fn fx_mul(a: int, b: int) -> int {
    sat(div_tz(a * b, SCALE as int))
}

/// What fixed-point division returns.
pub open spec fn fx_div(a: int, b: int) -> int
    recommends b > 0,
{
    sat(div_tz(a * (SCALE as int), b))
}

/// Clamp into `[lo, hi]`.
pub open spec fn clamped(v: int, lo: int, hi: int) -> int
    recommends lo <= hi,
{
    if v < lo { lo } else if v > hi { hi } else { v }
}

/// Saturating addition.
pub fn fadd(a: i64, b: i64) -> (r: i64)
    requires
        fx_ok(a),
        fx_ok(b),
    ensures
        r == fx_add(a as int, b as int),
        fx_ok(r),
{
    let s = a + b;
    if s > MAG { MAG } else if s < -MAG { -MAG } else { s }
}

/// Saturating subtraction.
pub fn fsub(a: i64, b: i64) -> (r: i64)
    requires
        fx_ok(a),
        fx_ok(b),
    ensures
        r == fx_sub(a as int, b as int),
        fx_ok(r),
{
    let s = a - b;
    if s > MAG { MAG } else if s < -MAG { -MAG } else { s }
}

/// Saturating fixed-point multiplication: `(a * b) / SCALE`, truncated
/// toward zero.
pub fn fmul(a: i64, b: i64) -> (r: i64)
    requires
        fx_ok(a),
        fx_ok(b),
    ensures
        r == fx_mul(a as int, b as int),
        fx_ok(r),
{
    let neg = (a < 0) != (b < 0);
    let am: u128 = (if a < 0 { -a } else { a }) as u128;
    let bm: u128 = (if b < 0 { -b } else { b }) as u128;
    proof {
        assert(am == mag(a as int));
        assert(bm == mag(b as int));
        assert(am * bm <= (MAG as int) * (MAG as int)) by (nonlinear_arith)
            requires 0 <= am <= MAG as int, 0 <= bm <= MAG as int;
    }
    let p = am * bm;
    let q = p / (SCALE as u128);
    let m: i64 = if q > MAG as u128 { MAG } else { q as i64 };
    let r: i64 = if neg { -m } else { m };
    proof {
        let ga = a as int;
        let gb = b as int;
        if !neg {
            assert(ga * gb == am * bm) by (nonlinear_arith)
                requires
                    am == mag(ga),
                    bm == mag(gb),
                    (ga < 0) == (gb < 0);
            assert(ga * gb >= 0);
            assert(r == sat(div_tz(ga * gb, SCALE as int)));
        } else {
            assert(ga * gb == -(am * bm)) by (nonlinear_arith)
                requires
                    am == mag(ga),
                    bm == mag(gb),
                    (ga < 0) != (gb < 0);
            assert(ga * gb <= 0);
            if ga * gb == 0 {
                assert(q == 0);
                assert(r == 0);
            } else {
                assert(div_tz(ga * gb, SCALE as int) == -(q as int));
            }
            assert(r == sat(div_tz(ga * gb, SCALE as int)));
        }
    }
    r
}

/// Saturating fixed-point division: `(a * SCALE) / b`, truncated toward
/// zero.  The divisor must be positive.
pub fn fdiv(a: i64, b: i64) -> (r: i64)
    requires
        fx_ok(a),
        0 < b <= MAG,
    ensures
        r == fx_div(a as int, b as int),
        fx_ok(r),
{
    let neg = a < 0;
    let am: u128 = (if a < 0 { -a } else { a }) as u128;
    proof {
        assert(am == mag(a as int));
        assert(am * (SCALE as u128) <= (MAG as int) * (SCALE as int)) by (nonlinear_arith)
            requires 0 <= am <= MAG as int;
    }
    let p = am * (SCALE as u128);
    let q = p / (b as u128);
    let m: i64 = if q > MAG as u128 { MAG } else { q as i64 };
    let r: i64 = if neg { -m } else { m };
    proof {
        let ga = a as int;
        if !neg {
            assert(ga * (SCALE as int) == am * (SCALE as int)) by (nonlinear_arith)
                requires am == mag(ga), ga >= 0;
            assert(r == sat(div_tz(ga * (SCALE as int), b as int)));
        } else {
            assert(ga * (SCALE as int) == -((am * (SCALE as int)) as int)) by (nonlinear_arith)
                requires am == mag(ga), ga < 0;
            if ga == 0 {
                assert(r == sat(div_tz(ga * (SCALE as int), b as int)));
            } else {
                assert(ga * (SCALE as int) < 0) by (nonlinear_arith)
                    requires ga < 0;
                assert(div_tz(ga * (SCALE as int), b as int) == -(q as int));
                assert(r == sat(div_tz(ga * (SCALE as int), b as int)));
            }
        }
    }
    r
}

/// Plain integer division truncating toward zero, for averaging over a
/// count; the divisor must be positive.
pub fn fdivi(a: i64, b: i64) -> (r: i64)
    requires
        fx_ok(a),
        0 < b,
    ensures
        r == div_tz(a as int, b as int),
        mag(r as int) <= mag(a as int),
        fx_ok(r),
{
    let neg = a < 0;
    let am: u64 = (if a < 0 { -a } else { a }) as u64;
    let q = am / (b as u64);
    proof {
        assert(q * (b as int) <= am) by (nonlinear_arith)
            requires q == am as int / (b as int), 0 < b as int, 0 <= am;
        assert(q <= am) by (nonlinear_arith)
            requires q * (b as int) <= am as int, 1 <= b as int, 0 <= q;
    }
    let m = q as i64;
    if neg { -m } else { m }
}

/// Negation.
pub fn fneg(a: i64) -> (r: i64)
    requires
        fx_ok(a),
    ensures
        r == -(a as int),
        fx_ok(r),
{
    -a
}

/// Magnitude.
pub fn fabs(a: i64) -> (r: i64)
    requires
        fx_ok(a),
    ensures
        r == mag(a as int),
        fx_ok(r),
{
    if a < 0 { -a } else { a }
}

/// The smaller of two values.
pub fn fmin(a: i64, b: i64) -> (r: i64)
    ensures
        r == if a as int <= b as int { a as int } else { b as int },
{
    if a <= b { a } else { b }
}

/// The larger of two values.
pub fn fmax(a: i64, b: i64) -> (r: i64)
    ensures
        r == if a as int >= b as int { a as int } else { b as int },
{
    if a >= b { a } else { b }
}

/// Clamp into `[lo, hi]`.
pub fn fclamp(a: i64, lo: i64, hi: i64) -> (r: i64)
    requires
        lo <= hi,
    ensures
        r == clamped(a as int, lo as int, hi as int),
{
    if a < lo { lo } else if a > hi { hi } else { a }
}

/// Clamp into the unit band `[0, SCALE]`.
pub fn fclamp01(a: i64) -> (r: i64)
    ensures
        r == clamped(a as int, 0, SCALE as int),
        0 <= r <= SCALE,
{
    if a < 0 { 0 } else if a > SCALE { SCALE } else { a }
}

/// Half of a non-negative value, truncated.
pub fn fhalf(a: i64) -> (r: i64)
    requires
        0 <= a,
    ensures
        r == a as int / 2,
        0 <= r <= a,
{
    let h = (a as u64) / 2;
    h as i64
}

/// The integer square root: the largest `r` with `r * r <= n`.
pub open spec fn sqrt_tz(n: int) -> int
    decreases n,
{
    if n <= 0 {
        0
    } else {
        let p = sqrt_tz(n - 1);
        if (p + 1) * (p + 1) <= n { p + 1 } else { p }
    }
}

/// `sqrt_tz(n)` is the unique non-negative root squeezed by `n`.
pub proof fn lemma_sqrt_tz(n: int)
    requires
        n >= 0,
    ensures
        sqrt_tz(n) >= 0,
        sqrt_tz(n) * sqrt_tz(n) <= n,
        (sqrt_tz(n) + 1) * (sqrt_tz(n) + 1) > n,
    decreases n,
{
    if n > 0 {
        lemma_sqrt_tz(n - 1);
        let p = sqrt_tz(n - 1);
        assert(p * p <= n - 1);
        if (p + 1) * (p + 1) <= n {
            assert((p + 2) * (p + 2) > n) by (nonlinear_arith)
                requires p >= 0, (p + 1) * (p + 1) > n - 1;
        }
    }
}

/// Fixed-point square root of a non-negative value.
pub fn fsqrt(a: i64) -> (r: i64)
    requires
        0 <= a <= MAG,
    ensures
        r == sqrt_tz(a * (SCALE as int)),
        0 <= r,
        r * r <= a * (SCALE as int),
        (r + 1) * (r + 1) > a * (SCALE as int),
        fx_ok(r),
{
    proof {
        assert((a as int) * (SCALE as int) <= (MAG as int) * (SCALE as int)) by (nonlinear_arith)
            requires 0 <= a <= MAG as int;
    }
    let t: u64 = (a as u64) * (SCALE as u64);
    let mut lo: u64 = 0;
    let mut hi: u64 = 1_000_000_000;
    proof {
        assert((hi as int + 1) * (hi as int + 1) > t as int) by (nonlinear_arith)
            requires hi as int == 1_000_000_000, t <= (MAG as int) * (SCALE as int);
    }
    while lo < hi
        invariant
            lo <= hi <= 1_000_000_000,
            (lo as int) * (lo as int) <= t as int,
            (hi as int + 1) * (hi as int + 1) > t as int,
            t == (a as int) * (SCALE as int),
        decreases hi - lo,
    {
        let mid = lo + (hi - lo + 1) / 2;
        proof {
            assert((mid as int) * (mid as int) <= 1_000_000_000_000_000_000) by (nonlinear_arith)
                requires 0 <= mid as int <= 1_000_000_000;
        }
        if mid * mid <= t {
            lo = mid;
        } else {
            hi = mid - 1;
        }
    }
    proof {
        lemma_sqrt_tz(t as int);
        let s = sqrt_tz(t as int);
        assert(lo as int == s) by (nonlinear_arith)
            requires
                0 <= lo as int,
                (lo as int) * (lo as int) <= t as int,
                (lo as int + 1) * (lo as int + 1) > t as int,
                0 <= s,
                s * s <= t as int,
                (s + 1) * (s + 1) > t as int;
    }
    lo as i64
}

/// Adding a non-negative amount never decreases a value that is not
/// already saturated.
pub proof fn lemma_fx_add_mono(a: int, b: int)
    requires
        a <= MAG,
        b >= 0,
    ensures
        fx_add(a, b) >= a,
        b <= MAG && 0 <= a ==> fx_add(a, b) >= b,
{
}

/// The product of two non-negative factors, scaled down, is non-negative
/// and no greater than either factor when the other is at most one unit.
pub proof fn lemma_fx_mul_nonneg(a: int, b: int)
    requires
        0 <= a,
        0 <= b,
    ensures
        0 <= fx_mul(a, b),
        b <= SCALE ==> fx_mul(a, b) <= sat(a),
{
    assert(0 <= a * b) by (nonlinear_arith)
        requires 0 <= a, 0 <= b;
    assert(0 <= div_tz(a * b, SCALE as int)) by (nonlinear_arith)
        requires 0 <= a * b;
    if b <= SCALE {
        assert(a * b <= a * SCALE) by (nonlinear_arith)
            requires 0 <= a, 0 <= b <= SCALE as int;
        assert(div_tz(a * b, SCALE as int) <= a) by (nonlinear_arith)
            requires 0 <= a * b <= a * (SCALE as int), 0 <= a;
    }
}

/// The product of two quantities no larger than one unit is itself no
/// larger than one unit.
pub proof fn lemma_fx_mul_units(a: int, b: int)
    requires
        mag(a) <= SCALE,
        mag(b) <= SCALE,
    ensures
        mag(fx_mul(a, b)) <= SCALE,
{
    assert(mag(a * b) <= (SCALE as int) * (SCALE as int)) by (nonlinear_arith)
        requires mag(a) <= SCALE as int, mag(b) <= SCALE as int;
    let q = div_tz(a * b, SCALE as int);
    assert(mag(q) <= SCALE) by (nonlinear_arith)
        requires
            q == div_tz(a * b, SCALE as int),
            mag(a * b) <= (SCALE as int) * (SCALE as int);
}

/// A deterministic bounded oscillation: a triangle wave of period
/// `4 * SCALE` through `(0, 0)`, rising to `SCALE` at a quarter period and
/// falling to `-SCALE` at three quarters.  It stands in for a trigonometric
/// oscillator wherever the simulation needs a smooth periodic signal or a
/// reproducible pseudo-random perturbation seeded from state.
pub open spec fn osc(s: int) -> int {
    let m = s % (4 * (SCALE as int));
    if m < SCALE { m } else if m < 3 * (SCALE as int) { 2 * (SCALE as int) - m } else { m - 4 * (SCALE as int) }
}

/// Evaluate the triangle oscillation at `s`.
pub fn osc_at(s: i64) -> (r: i64)
    requires
        -4_000_000_000_000_000_000 < s < 4_000_000_000_000_000_000,
    ensures
        r == osc(s as int),
        -SCALE <= r <= SCALE,
{
    let p: u64 = 4_000_000;
    let m: u64 = if s >= 0 {
        (s as u64) % p
    } else {
        let t = ((-s) as u64) % p;
        if t == 0 { 0 } else { p - t }
    };
    proof {
        let gs = s as int;
        let gp = 4 * (SCALE as int);
        if s >= 0 {
            assert(m == gs % gp);
        } else {
            let t = (-gs) % gp;
            let k = (-gs) / gp;
            lemma_fundamental_div_mod(-gs, gp);
            assert(-gs == gp * k + t);
            if t == 0 {
                lemma_fundamental_div_mod_converse(gs, gp, -k, 0);
            } else {
                assert(gs == gp * (-k - 1) + (gp - t));
                lemma_fundamental_div_mod_converse(gs, gp, -k - 1, gp - t);
            }
            assert(m == gs % gp);
        }
    }
    let mi = m as i64;
    if mi < SCALE {
        mi
    } else if mi < 3 * SCALE {
        2 * SCALE - mi
    } else {
        mi - 4 * SCALE
    }
}

} // verus!
