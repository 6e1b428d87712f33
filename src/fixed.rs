//! Fixed-point helpers: one unit is `SCALE`.
use vstd::prelude::*;
use vstd::arithmetic::div_mod::{lemma_div_is_ordered, lemma_div_by_multiple};
use vstd::arithmetic::mul::lemma_mul_inequality;

verus! {

/// The fixed-point unit: a value `v` stands for `v / SCALE`.
pub const SCALE: u64 = 1_000_000;

/// `a * b / c`, rounded down.
pub fn mul_div(a: u64, b: u64, c: u64) -> (r: u64)
    requires
        c > 0,
        (a as int) * (b as int) / (c as int) <= u64::MAX,
    ensures
        r == (a as int) * (b as int) / (c as int),
{
    assert((a as u128) * (b as u128) <= u128::MAX) by (nonlinear_arith)
        requires a <= u64::MAX, b <= u64::MAX;
    ((a as u128) * (b as u128) / (c as u128)) as u64
}

/// Scaling by a fraction no larger than one does not grow a value.
pub proof fn lemma_mul_div_le(a: int, b: int, c: int)
    requires
        0 <= a,
        0 <= b <= c,
        0 < c,
    ensures
        0 <= a * b / c <= a,
{
    lemma_mul_inequality(b, c, a);
    assert(b * a == a * b && c * a == a * c) by (nonlinear_arith);
    lemma_div_is_ordered(a * b, a * c, c);
    lemma_div_by_multiple(a, c);
    assert(0 <= a * b) by (nonlinear_arith) requires 0 <= a, 0 <= b;
    assert(0 <= a * b / c) by (nonlinear_arith) requires 0 <= a * b, 0 < c;
}


/// Optical depths at or beyond this many units transmit nothing at `SCALE` resolution.
pub const EXP_CUTOFF: u64 = 30_000_000;

/// Reciprocal of the third-order Taylor polynomial of `e^y`, scaled.
pub open spec fn recip_taylor(y: int) -> int {
    (SCALE * SCALE) as int / (SCALE + y + y * y / (2 * SCALE) as int + y * y * y / (6 * SCALE * SCALE) as int)
}

/// Fixed-point `e^(-x)`: the reciprocal Taylor approximation at `x / 4`, squared twice.
pub open spec fn exp_neg_spec(x: int) -> int {
    if x >= EXP_CUTOFF {
        0
    } else if x <= 0 {
        SCALE as int
    } else {
        let q = recip_taylor(x / 4);
        let q2 = q * q / SCALE as int;
        q2 * q2 / SCALE as int
    }
}

/// The approximation is a fraction between nothing and one.
pub proof fn lemma_exp_neg_bounds(x: int)
    ensures
        0 <= exp_neg_spec(x) <= SCALE,
{
    if 0 < x < EXP_CUTOFF {
        let y = x / 4;
        let s = SCALE as int;
        assert(0 <= y * y) by (nonlinear_arith);
        assert(0 <= y * y * y) by (nonlinear_arith) requires 0 <= y;
        let d = s + y + y * y / (2 * s) + y * y * y / (6 * s * s);
        assert(y * y / (2 * s) >= 0 && y * y * y / (6 * s * s) >= 0);
        vstd::arithmetic::div_mod::lemma_div_is_ordered_by_denominator(s * s, s, d);
        lemma_div_by_multiple(s, s);
        let q = recip_taylor(y);
        assert(0 <= q <= s);
        lemma_mul_div_le(q, q, s);
        let q2 = q * q / s;
        lemma_mul_div_le(q2, q2, s);
    }
}

/// Fixed-point transmission `e^(-x)` of an optical depth `x`.
pub fn exp_neg(x: u64) -> (r: u64)
    ensures
        r == exp_neg_spec(x as int),
        r <= SCALE,
{
    if x >= EXP_CUTOFF {
        return 0;
    }
    if x == 0 {
        return SCALE;
    }
    let y: u128 = (x / 4) as u128;
    let s: u128 = SCALE as u128;
    assert(y * y <= 7_500_000 * 7_500_000) by (nonlinear_arith) requires y <= 7_500_000;
    assert(y * y * y <= 7_500_000 * 7_500_000 * 7_500_000) by (nonlinear_arith)
        requires y <= 7_500_000, y * y <= 7_500_000 * 7_500_000;
    let d: u128 = s + y + y * y / (2 * s) + y * y * y / (6 * s * s);
    proof {
        vstd::arithmetic::div_mod::lemma_div_is_ordered_by_denominator((SCALE * SCALE) as int, SCALE as int, d as int);
        lemma_div_by_multiple(SCALE as int, SCALE as int);
    }
    let q: u64 = ((s * s) / d) as u64;
    proof {
        lemma_mul_div_le(q as int, q as int, SCALE as int);
    }
    let q2: u64 = mul_div(q, q, SCALE);
    proof {
        lemma_mul_div_le(q2 as int, q2 as int, SCALE as int);
    }
    mul_div(q2, q2, SCALE)
}

/// Bhaskara's rational approximation of the sine of `x` milli-degrees, `0 <= x <= 180000`.
pub open spec fn bhaskara(x: int) -> int {
    (4 * SCALE) as int * (x * (180_000 - x)) / (40_500_000_000 - x * (180_000 - x))
}

/// Fixed-point sine of `a` milli-degrees.
pub open spec fn sin_spec(a: int) -> int {
    let m = (a + 720_000) % 360_000;
    if m <= 180_000 { bhaskara(m) } else { -bhaskara(m - 180_000) }
}

proof fn lemma_bhaskara_bounds(x: int)
    requires
        0 <= x <= 180_000,
    ensures
        0 <= bhaskara(x) <= SCALE,
        0 <= x * (180_000 - x) <= 8_100_000_000,
{
    assert(0 <= x * (180_000 - x) <= 8_100_000_000) by (nonlinear_arith)
        requires 0 <= x <= 180_000;
    let p = x * (180_000 - x);
    let d = 40_500_000_000 - p;
    assert((4 * SCALE) as int * p <= SCALE as int * d) by (nonlinear_arith)
        requires 0 <= p <= 8_100_000_000, d == 40_500_000_000 - p;
    lemma_div_is_ordered((4 * SCALE) as int * p, SCALE as int * d, d);
    lemma_div_by_multiple(SCALE as int, d);
    assert(SCALE as int * d == d * SCALE as int) by (nonlinear_arith);
    assert(0 <= (4 * SCALE) as int * p) by (nonlinear_arith) requires 0 <= p;
    assert(0 <= bhaskara(x)) by (nonlinear_arith)
        requires 0 <= (4 * SCALE) as int * p, d > 0, bhaskara(x) == (4 * SCALE) as int * p / d;
}

fn bhaskara_exec(x: u64) -> (r: i64)
    requires
        x <= 180_000,
    ensures
        r == bhaskara(x as int),
        0 <= r <= SCALE,
{
    proof {
        lemma_bhaskara_bounds(x as int);
    }
    let p: u64 = x * (180_000 - x);
    assert((4 * SCALE) * p <= 4 * 1_000_000 * 8_100_000_000u64) by (nonlinear_arith)
        requires p <= 8_100_000_000;
    (((4 * SCALE) * p) / (40_500_000_000 - p)) as i64
}

/// Fixed-point sine of `a` milli-degrees, for `|a| < 720000`.
pub fn sin_mdeg(a: i64) -> (r: i64)
    requires
        -720_000 < a < 720_000,
    ensures
        r == sin_spec(a as int),
        -(SCALE as int) <= r <= SCALE,
{
    let m: u64 = ((a + 720_000) as u64) % 360_000;
    if m <= 180_000 {
        bhaskara_exec(m)
    } else {
        -bhaskara_exec(m - 180_000)
    }
}

/// Fixed-point cosine of `a` milli-degrees, for `|a| < 630000`.
pub fn cos_mdeg(a: i64) -> (r: i64)
    requires
        -630_000 < a < 630_000,
    ensures
        r == sin_spec(a + 90_000),
        -(SCALE as int) <= r <= SCALE,
{
    sin_mdeg(a + 90_000)
}

} // verus!
