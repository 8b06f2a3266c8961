//! Fixed-point numbers.
//!
//! Prices, quantities, balances and ratios are integers that count steps of
//! `10^-12`: the number one is [`ONE`]. Sums, differences and comparisons are
//! exact. Products and quotients are rounded to the nearest step, and a tie is
//! rounded up.
use vstd::arithmetic::div_mod::{lemma_fundamental_div_mod, lemma_fundamental_div_mod_converse};
use vstd::prelude::*;

verus! {

/// A number in steps of `10^-12`.
pub type Fixed = i128;

/// The number one.
pub const ONE: i128 = 1_000_000_000_000;

/// The largest magnitude of a number: one trillion.
pub const LIMIT: i128 = 1_000_000_000_000_000_000_000_000;

/// Whether a number lies within the magnitude that the arithmetic accepts.
pub open spec fn bounded(x: int) -> bool {
    -LIMIT <= x <= LIMIT
}

/// The quotient `n / d` rounded to the nearest integer, ties upwards.
pub open spec fn round_div(n: int, d: int) -> int {
    (2 * n + d) / (2 * d)
}

/// The product of two numbers.
pub open spec fn product(a: int, b: int) -> int {
    round_div(a * b, ONE as int)
}

/// The quotient of two numbers.
pub open spec fn quotient(a: int, b: int) -> int {
    round_div(a * ONE, b)
}

pub open spec fn max_of(a: int, b: int) -> int {
    if a >= b {
        a
    } else {
        b
    }
}

pub open spec fn min_of(a: int, b: int) -> int {
    if a <= b {
        a
    } else {
        b
    }
}

pub open spec fn abs_of(a: int) -> int {
    if a >= 0 {
        a
    } else {
        -a
    }
}

/// `x` moved into `lo..=hi`.
pub open spec fn clamped(x: int, lo: int, hi: int) -> int {
    if x < lo {
        lo
    } else if x > hi {
        hi
    } else {
        x
    }
}

/// The largest integer not above `n / d`.
pub fn div_floor(n: i128, d: i128) -> (q: i128)
    requires
        d > 0,
    ensures
        q == n as int / d as int,
{
    if n >= 0 {
        n / d
    } else {
        let m: i128 = -(n + 1);
        let k: i128 = m / d;
        proof {
            let r = m as int % d as int;
            lemma_fundamental_div_mod(m as int, d as int);
            assert(n as int == d as int * (-(k as int) - 1) + (d as int - 1 - r)) by (nonlinear_arith)
                requires
                    n as int == -(m as int) - 1,
                    m as int == d as int * k as int + r,
            ;
            lemma_fundamental_div_mod_converse(
                n as int,
                d as int,
                -(k as int) - 1,
                d as int - 1 - r,
            );
        }
        -k - 1
    }
}

/// `n / d` rounded to the nearest integer.
pub fn div_round(n: i128, d: i128) -> (q: i128)
    requires
        0 < d,
        i128::MIN <= 2 * n && 2 * n + d <= i128::MAX,
        2 * d <= i128::MAX,
    ensures
        q == round_div(n as int, d as int),
{
    div_floor(2 * n + d, 2 * d)
}

/// Adding a multiple of the divisor moves a rounded quotient by that multiple.
pub proof fn lemma_round_div_shift(n: int, k: int, d: int)
    requires
        d > 0,
    ensures
        round_div(n + k * d, d) == round_div(n, d) + k,
{
    let a = 2 * n + d;
    let q = a / (2 * d);
    let r = a % (2 * d);
    lemma_fundamental_div_mod(a, 2 * d);
    assert(2 * (n + k * d) + d == (2 * d) * (q + k) + r) by (nonlinear_arith)
        requires
            a == 2 * n + d,
            a == (2 * d) * q + r,
    ;
    lemma_fundamental_div_mod_converse(2 * (n + k * d) + d, 2 * d, q + k, r);
}

/// A rounded quotient keeps the order of the dividends.
pub proof fn lemma_round_div_monotone(m: int, n: int, d: int)
    requires
        d > 0,
        m <= n,
    ensures
        round_div(m, d) <= round_div(n, d),
{
    vstd::arithmetic::div_mod::lemma_div_is_ordered(2 * m + d, 2 * n + d, 2 * d);
}

/// A rounded quotient misses the exact one by at most a half.
pub proof fn lemma_round_div_error(n: int, d: int)
    requires
        d > 0,
    ensures
        2 * n - d <= 2 * (round_div(n, d) * d) <= 2 * n + d,
{
    let a = 2 * n + d;
    lemma_fundamental_div_mod(a, 2 * d);
    let q = a / (2 * d);
    let r = a % (2 * d);
    assert(2 * (q * d) == a - r) by (nonlinear_arith)
        requires
            a == (2 * d) * q + r,
    ;
}

/// Dividing an exact multiple rounds nothing.
pub proof fn lemma_round_div_exact(k: int, d: int)
    requires
        d > 0,
    ensures
        round_div(k * d, d) == k,
{
    lemma_round_div_shift(0, k, d);
    assert(round_div(0, d) == 0) by {
        lemma_fundamental_div_mod_converse(d, 2 * d, 0, d);
    }
}

/// The rounded quotient of bounded numbers, `a * num / den`, is no larger than
/// the magnitude of `a` times `num`.
pub proof fn lemma_round_div_bounds(n: int, d: int, b: int)
    requires
        d > 0,
        -b <= n <= b,
    ensures
        -b <= round_div(n, d) <= b,
{
    lemma_round_div_error(n, d);
    let q = round_div(n, d);
    assert(-b <= q <= b) by (nonlinear_arith)
        requires
            d > 0,
            -b <= n <= b,
            2 * n - d <= 2 * (q * d) <= 2 * n + d,
    {
        if q > b {
            assert(q * d >= (b + 1) * d) by (nonlinear_arith)
                requires
                    q >= b + 1,
                    d > 0,
            ;
            assert(2 * ((b + 1) * d) > 2 * b + d) by (nonlinear_arith)
                requires
                    d >= 1,
                    b >= 0,
            ;
        }
        if q < -b {
            assert(q * d <= (-b - 1) * d) by (nonlinear_arith)
                requires
                    q <= -b - 1,
                    d > 0,
            ;
            assert(2 * ((-b - 1) * d) < -2 * b - d) by (nonlinear_arith)
                requires
                    d >= 1,
                    b >= 0,
            ;
        }
    }
}

/// Whether a number is no larger than a sum of four bounded ones.
pub open spec fn wide(x: int) -> bool {
    -4 * LIMIT <= x <= 4 * LIMIT
}

/// `x` moved into the range of bounded numbers.
pub open spec fn saturated(x: int) -> int {
    clamped(x, -(LIMIT as int), LIMIT as int)
}

/// `x` moved into the range of bounded numbers.
pub fn saturate(x: i128) -> (r: i128)
    ensures
        r == saturated(x as int),
        bounded(r as int),
{
    clamp_fixed(x, -LIMIT, LIMIT)
}

/// The product of two numbers, rounded to the nearest step.
pub fn mul_fixed(a: i128, b: i128) -> (p: i128)
    requires
        wide(a as int),
        wide(b as int),
    ensures
        p == product(a as int, b as int),
        -30_000_000_000_000_000_000_000_000_000_000_000_000 <= p
            <= 30_000_000_000_000_000_000_000_000_000_000_000_000,
{
    let q: i128 = div_floor(a, ONE);
    proof {
        lemma_fundamental_div_mod(a as int, ONE as int);
        assert(q as int * ONE as int == ONE as int * q as int) by (nonlinear_arith);
    }
    let r: i128 = a - q * ONE;
    proof {
        assert(-4 * LIMIT * ONE <= r * b <= 4 * LIMIT * ONE) by (nonlinear_arith)
            requires
                0 <= r < ONE,
                -4 * LIMIT <= b <= 4 * LIMIT,
        ;
        assert(-4_000_000_000_001int * (4 * LIMIT) <= q * b <= 4_000_000_000_001int * (4 * LIMIT))
            by (nonlinear_arith)
            requires
                -4_000_000_000_001int <= q <= 4_000_000_000_000int,
                -4 * LIMIT <= b <= 4 * LIMIT,
        ;
        assert(a as int * b as int == r as int * b as int + (q as int * b as int) * ONE as int) by (nonlinear_arith)
            requires
                a as int == q as int * ONE as int + r as int,
        ;
        lemma_round_div_shift(r as int * b as int, q as int * b as int, ONE as int);
        lemma_round_div_bounds(r as int * b as int, ONE as int, 4 * LIMIT * ONE);
    }
    q * b + div_round(r * b, ONE)
}

/// The quotient of two numbers, rounded to the nearest step.
pub fn div_fixed(a: i128, b: i128) -> (p: i128)
    requires
        wide(a as int),
        0 < b <= 4 * LIMIT,
    ensures
        p == quotient(a as int, b as int),
        -40_000_000_000_000_000_000_000_000_000_000_000_000 <= p
            <= 40_000_000_000_000_000_000_000_000_000_000_000_000,
{
    proof {
        lemma_round_div_bounds(
            a * ONE,
            b as int,
            40_000_000_000_000_000_000_000_000_000_000_000_000,
        );
    }
    div_round(a * ONE, b)
}

/// Whether the exact quotient `n / d` is at least the number `t`.
pub fn quotient_at_least(n: i128, d: i128, t: i128) -> (r: bool)
    requires
        wide(n as int),
        d > 0,
    ensures
        r == (n * ONE >= t * d),
{
    let q: i128 = div_floor(n * ONE, d);
    proof {
        let m = n * ONE;
        lemma_fundamental_div_mod(m, d as int);
        assert((q >= t) == (m >= t * d)) by (nonlinear_arith)
            requires
                d > 0,
                m == d * q + m % (d as int),
                0 <= m % (d as int) < d,
        ;
    }
    q >= t
}

/// Whether the exact quotient `n / d` is at most the number `t`.
pub fn quotient_at_most(n: i128, d: i128, t: i128) -> (r: bool)
    requires
        wide(n as int),
        d > 0,
    ensures
        r == (n * ONE <= t * d),
{
    let q: i128 = div_floor(-(n * ONE), d);
    proof {
        let m = -(n * ONE);
        lemma_fundamental_div_mod(m, d as int);
        assert((-q <= t) == (-m <= t * d)) by (nonlinear_arith)
            requires
                d > 0,
                m == d * q + m % (d as int),
                0 <= m % (d as int) < d,
        ;
        assert(-5_000_000_000_000_000_000_000_000_000_000_000_000 <= q) by (nonlinear_arith)
            requires
                d > 0,
                m == d * q + m % (d as int),
                0 <= m % (d as int) < d,
                m >= -4_000_000_000_000_000_000_000_000_000_000_000_000,
        ;
    }
    -q <= t
}

/// A magnitude above that of every product of two numbers.
pub const PRODUCT_MAX: i128 = 50_000_000_000_000_000_000_000_000_000_000_000_000;

/// Whether the exact product `a * b` is at most `c` times the unit in which `b` is
/// counted.
pub fn product_at_most(a: i128, b: i128, c: i128, unit: i128) -> (r: bool)
    requires
        wide(a as int),
        -5 * LIMIT <= b <= 5 * LIMIT,
        -PRODUCT_MAX <= c <= PRODUCT_MAX,
        ONE <= unit <= 10_000 * ONE,
    ensures
        r == (a * b <= c * unit),
{
    let bq: i128 = div_floor(b, unit);
    let aq: i128 = div_floor(a, unit);
    proof {
        lemma_fundamental_div_mod(a as int, unit as int);
        lemma_fundamental_div_mod(b as int, unit as int);
        assert(-5_000_000_000_001 <= bq <= 5_000_000_000_001 && -4_000_000_000_001 <= aq
            <= 4_000_000_000_001) by (nonlinear_arith)
            requires
                wide(a as int),
                -5 * LIMIT <= b <= 5 * LIMIT,
                ONE <= unit,
                a == unit * aq + (a as int) % (unit as int),
                0 <= (a as int) % (unit as int) < unit,
                b == unit * bq + (b as int) % (unit as int),
                0 <= (b as int) % (unit as int) < unit,
        ;
        assert(unit * bq == bq * unit && unit * aq == aq * unit) by (nonlinear_arith);
    }
    let br: i128 = b - bq * unit;
    let ar: i128 = a - aq * unit;
    proof {
        assert(0 <= ar * br <= 100_000_000_000_000_000_000_000_000_000_000) by (nonlinear_arith)
            requires
                0 <= ar < 10_000_000_000_000_000,
                0 <= br < 10_000_000_000_000_000,
        ;
        assert(-30_000_000_000_000_000_000_000_000_000_000_000_000 <= a * bq
            <= 30_000_000_000_000_000_000_000_000_000_000_000_000) by (nonlinear_arith)
            requires
                -4_000_000_000_000_000_000_000_000 <= a <= 4_000_000_000_000_000_000_000_000,
                -5_000_000_000_001 <= bq <= 5_000_000_000_001,
        ;
        assert(-100_000_000_000_000_000_000_000_000_000 <= aq * br
            <= 100_000_000_000_000_000_000_000_000_000) by (nonlinear_arith)
            requires
                -4_000_000_000_001 <= aq <= 4_000_000_000_001,
                0 <= br < 10_000_000_000_000_000,
        ;
    }
    let whole: i128 = c - a * bq - aq * br;
    let rest: i128 = div_floor(-(ar * br), unit);
    proof {
        let m = -(ar * br);
        lemma_fundamental_div_mod(m, unit as int);
        assert(-100_000_000_000_000_000_000_000_000_000_001 <= rest <= 0) by (nonlinear_arith)
            requires
                -100_000_000_000_000_000_000_000_000_000_000 <= m <= 0,
                unit >= 1,
                m == unit * rest + m % (unit as int),
                0 <= m % (unit as int) < unit,
        ;
        assert(a * b == a * bq * unit + aq * br * unit + ar * br) by (nonlinear_arith)
            requires
                b == bq * unit + br,
                a == aq * unit + ar,
        ;
        assert(c * unit - a * b == whole * unit + m) by (nonlinear_arith)
            requires
                a * b == a * bq * unit + aq * br * unit + ar * br,
                whole == c - a * bq - aq * br,
                m == -(ar * br),
        ;
        assert((whole >= -rest) == (whole * unit + m >= 0)) by (nonlinear_arith)
            requires
                m == unit * rest + m % (unit as int),
                0 <= m % (unit as int) < unit,
                unit > 0,
        ;
    }
    whole >= -rest
}

/// Whether the exact product `a * b` is at least the number `c`.
pub fn product_at_least(a: i128, b: i128, c: i128) -> (r: bool)
    requires
        wide(a as int),
        -5 * LIMIT <= b <= 5 * LIMIT,
        -PRODUCT_MAX <= c <= PRODUCT_MAX,
    ensures
        r == (a * b >= c * ONE),
{
    assert((-a) * b == -(a * b)) by (nonlinear_arith);
    product_at_most(-a, b, -c, ONE)
}

pub fn max_fixed(a: i128, b: i128) -> (m: i128)
    ensures
        m == max_of(a as int, b as int),
{
    if a >= b {
        a
    } else {
        b
    }
}

pub fn min_fixed(a: i128, b: i128) -> (m: i128)
    ensures
        m == min_of(a as int, b as int),
{
    if a <= b {
        a
    } else {
        b
    }
}

pub fn clamp_fixed(x: i128, lo: i128, hi: i128) -> (c: i128)
    ensures
        c == clamped(x as int, lo as int, hi as int),
{
    if x < lo {
        lo
    } else if x > hi {
        hi
    } else {
        x
    }
}

/// The magnitude of a number.
pub fn abs_fixed(a: i128) -> (m: i128)
    requires
        a > i128::MIN,
    ensures
        m == abs_of(a as int),
{
    if a >= 0 {
        a
    } else {
        -a
    }
}

/// The product of two numbers, kept within the range of bounded numbers.
pub open spec fn times(a: int, b: int) -> int {
    saturated(product(a, b))
}

/// The product of two numbers, kept within the range of bounded numbers.
pub fn mul_bounded(a: i128, b: i128) -> (p: i128)
    requires
        wide(a as int),
        wide(b as int),
    ensures
        p == times(a as int, b as int),
        bounded(p as int),
{
    saturate(mul_fixed(a, b))
}

/// The quotient of two numbers, kept within the range of bounded numbers.
pub open spec fn over(a: int, b: int) -> int {
    saturated(quotient(a, b))
}

/// The quotient of two numbers, kept within the range of bounded numbers.
pub fn div_bounded(a: i128, b: i128) -> (p: i128)
    requires
        wide(a as int),
        0 < b <= 4 * LIMIT,
    ensures
        p == over(a as int, b as int),
        bounded(p as int),
{
    saturate(div_fixed(a, b))
}

/// Whether a number is within the range of the arithmetic.
pub fn within(v: i128) -> (r: bool)
    ensures
        r == bounded(v as int),
{
    -LIMIT <= v && v <= LIMIT
}

/// Whether a number, where there is one, is within the range of the arithmetic.
pub fn none_or_within(v: Option<i128>) -> (r: bool)
    ensures
        r == (v is Some ==> bounded(v->0 as int)),
{
    match v {
        Some(x) => within(x),
        None => true,
    }
}

/// The larger of two numbers is one of them and under neither, the smaller one over neither;
/// the amount of a number is its distance from zero.
pub proof fn law_larger_smaller_and_amount(a: int, b: int)
    ensures
        max_of(a, b) >= a && max_of(a, b) >= b,
        max_of(a, b) == a || max_of(a, b) == b,
        min_of(a, b) <= a && min_of(a, b) <= b,
        min_of(a, b) + max_of(a, b) == a + b,
        abs_of(a) >= 0,
        abs_of(a) == a || abs_of(a) + a == 0,
{
}

/// A number inside its bounds stays as it is, another one becomes the bound that it passed.
pub proof fn law_clamped_stays_inside(x: int, lo: int, hi: int)
    requires
        lo <= hi,
    ensures
        lo <= clamped(x, lo, hi) <= hi,
        lo <= x <= hi ==> clamped(x, lo, hi) == x,
        x < lo ==> clamped(x, lo, hi) == lo,
        x > hi ==> clamped(x, lo, hi) == hi,
        saturated(x) == x <==> -1_000_000_000_000_000_000_000_000 <= x
            <= 1_000_000_000_000_000_000_000_000,
{
}

/// A product is within half a step of the exact one, and so is a quotient: times its divisor
/// it is within half the divisor of the dividend.
pub proof fn law_products_and_quotients_are_near(a: int, b: int)
    ensures
        -1_000_000_000_000 <= 2 * (product(a, b) * 1_000_000_000_000 - a * b) <= 1_000_000_000_000,
        b > 0 ==> -b <= 2 * (quotient(a, b) * b - a * 1_000_000_000_000) <= b,
        -LIMIT <= product(a, b) <= LIMIT ==> times(a, b) == product(a, b),
        -LIMIT <= quotient(a, b) <= LIMIT ==> over(a, b) == quotient(a, b),
{
    lemma_round_div_error(a * b, ONE as int);
    if b > 0 {
        lemma_round_div_error(a * ONE, b);
    }
}

} // verus!
