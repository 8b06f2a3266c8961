//! Decimal arithmetic for position sizing.
//!
//! [`Dec`] is a decimal number: an integer mantissa over a power of ten. The
//! arithmetic is that of the `rust_decimal` crate, whose numbers have a
//! mantissa of 96 bits and at most 28 decimal places.
use crate::fixed::{abs_of, bounded, div_round, max_of, round_div, LIMIT};
use crate::text::{
    lemma_pow10_28, lemma_pow10_add, lemma_pow10_positive, magnitude, nat_string, nat_text,
    padded_string, padded_text, pow10, ten_to,
};
use rust_decimal::Decimal;
use vstd::prelude::*;

verus! {

/// The largest mantissa: `2^96 - 1`.
pub const MAX_MANTISSA: i128 = 79_228_162_514_264_337_593_543_950_335;

/// The largest number of decimal places.
pub const MAX_SCALE: u32 = 28;

/// The decimal number `mantissa / 10^scale`.
#[derive(Clone, Copy, Debug, PartialEq, Eq, Structural)]
pub struct Dec {
    pub mantissa: i128,
    pub scale: u32,
}

impl View for Dec {
    type V = (int, nat);

    open spec fn view(&self) -> (int, nat) {
        (self.mantissa as int, self.scale as nat)
    }
}

impl Dec {
    /// Mantissa and scale are within what the arithmetic can hold.
    pub open spec fn wf(self) -> bool {
        -MAX_MANTISSA <= self.mantissa <= MAX_MANTISSA && self.scale <= MAX_SCALE
    }
}

/// What a decimal operation gave, as mantissa and scale.
pub open spec fn parts(r: Option<Dec>) -> Option<(int, nat)> {
    match r {
        Some(d) => Some(d@),
        None => None,
    }
}

/// The product that `rust_decimal` gives for two decimals, `None` where it overflows.
pub uninterp spec fn decimal_product(a: (int, nat), b: (int, nat)) -> Option<(int, nat)>;

/// The quotient that `rust_decimal` gives for two decimals, `None` where it
/// overflows or the divisor is zero.
pub uninterp spec fn decimal_quotient(a: (int, nat), b: (int, nat)) -> Option<(int, nat)>;

/// The sum that `rust_decimal` gives for two decimals, `None` where it overflows.
pub uninterp spec fn decimal_sum(a: (int, nat), b: (int, nat)) -> Option<(int, nat)>;

/// The difference that `rust_decimal` gives for two decimals, `None` where it overflows.
pub uninterp spec fn decimal_difference(a: (int, nat), b: (int, nat)) -> Option<(int, nat)>;

/// Whether a mantissa fits in 96 bits.
pub open spec fn fits(m: int) -> bool {
    -MAX_MANTISSA <= m <= MAX_MANTISSA
}

/// The order of two decimals as numbers.
pub open spec fn dec_at_most(a: (int, nat), b: (int, nat)) -> bool {
    a.0 * pow10(b.1) <= b.0 * pow10(a.1)
}

/// The mantissa of `a` brought to the finer of two scales.
pub open spec fn aligned(a: (int, nat), scale: nat) -> int {
    a.0 * pow10((scale - a.1) as nat)
}

/// The finer of two scales.
pub open spec fn finer(a: (int, nat), b: (int, nat)) -> nat {
    max_of(a.1 as int, b.1 as int) as nat
}

/// A decimal as a count of `10^-28`.
pub open spec fn value(a: (int, nat)) -> int {
    a.0 * pow10((28 - a.1) as nat)
}

/// How far a rounded result may be from the exact one, in parts of `10^-28`:
/// one part, and `10^-27` of the result. Both sides are multiplied by `10^27`.
pub open spec fn slack(r: (int, nat)) -> int {
    pow10(27) + abs_of(value(r))
}

/// `p` is the product of `a` and `b` but for rounding.
pub open spec fn near_product(a: (int, nat), b: (int, nat), p: (int, nat)) -> bool {
    abs_of(value(p) * pow10(28) - value(a) * value(b)) * pow10(27) <= pow10(28) * slack(p)
}

/// `q` is the quotient of `a` and `b` but for rounding.
pub open spec fn near_quotient(a: (int, nat), b: (int, nat), q: (int, nat)) -> bool {
    abs_of(value(q) * value(b) - value(a) * pow10(28)) * pow10(27) <= abs_of(value(b)) * slack(q)
}

/// `r` is the sum of `a` and `b` but for rounding.
pub open spec fn near_sum(a: (int, nat), b: (int, nat), r: (int, nat)) -> bool {
    abs_of(value(r) - (value(a) + value(b))) * pow10(27) <= slack(r)
}

/// `Decimal::checked_mul`. The result is named by [`decimal_product`]. A zero
/// factor gives zero at scale zero; otherwise, where the product of the
/// mantissas fits in 96 bits and the scales add up to no more than 28, the
/// result is exact, with that mantissa and that scale. Any result is within
/// [`slack`] of the exact product.
#[verifier::external_body]
pub(crate) fn dec_mul(a: Dec, b: Dec) -> (r: Option<Dec>)
    requires
        a.wf(),
        b.wf(),
    ensures
        parts(r) == decimal_product(a@, b@),
        r is Some ==> r->0.wf(),
        a.mantissa == 0 || b.mantissa == 0 ==> parts(r) == Some((0int, 0nat)),
        a.mantissa != 0 && b.mantissa != 0 && fits(a.mantissa * b.mantissa) && a.scale + b.scale
            <= MAX_SCALE ==> parts(r) == Some(
            (a.mantissa * b.mantissa, (a.scale + b.scale) as nat),
        ),
        r is Some ==> near_product(a@, b@, r->0@),
{
    let x = Decimal::from_i128_with_scale(a.mantissa, a.scale);
    let y = Decimal::from_i128_with_scale(b.mantissa, b.scale);
    x.checked_mul(y).map(|p| Dec { mantissa: p.mantissa(), scale: p.scale() })
}

/// `Decimal::checked_div`. The result is named by [`decimal_quotient`]. A zero
/// divisor gives none and a zero dividend gives zero. Any result is
/// within [`slack`] of the exact quotient.
#[verifier::external_body]
pub(crate) fn dec_div(a: Dec, b: Dec) -> (r: Option<Dec>)
    requires
        a.wf(),
        b.wf(),
    ensures
        parts(r) == decimal_quotient(a@, b@),
        r is Some ==> r->0.wf(),
        b.mantissa == 0 ==> r is None,
        a.mantissa == 0 && b.mantissa != 0 ==> parts(r) == Some((0int, 0nat)),
        r is Some ==> near_quotient(a@, b@, r->0@),
{
    let x = Decimal::from_i128_with_scale(a.mantissa, a.scale);
    let y = Decimal::from_i128_with_scale(b.mantissa, b.scale);
    x.checked_div(y).map(|q| Dec { mantissa: q.mantissa(), scale: q.scale() })
}

/// `Decimal::checked_add`. The result is named by [`decimal_sum`]. Where both
/// mantissas and their sum fit in 96 bits at the finer of the two scales, the
/// result is exact and no finer than that scale. Any sum of two numbers that are not
/// negative is within [`slack`] of the exact one.
#[verifier::external_body]
pub(crate) fn dec_add(a: Dec, b: Dec) -> (r: Option<Dec>)
    requires
        a.wf(),
        b.wf(),
    ensures
        parts(r) == decimal_sum(a@, b@),
        r is Some ==> r->0.wf(),
        ({
            let s = finer(a@, b@);
            let x = aligned(a@, s);
            let y = aligned(b@, s);
            fits(x) && fits(y) && fits(x + y) ==> r is Some && r->0.scale <= s && aligned(r->0@, s)
                == x + y
        }),
        r is Some && a.mantissa >= 0 && b.mantissa >= 0 ==> near_sum(a@, b@, r->0@),
{
    let x = Decimal::from_i128_with_scale(a.mantissa, a.scale);
    let y = Decimal::from_i128_with_scale(b.mantissa, b.scale);
    x.checked_add(y).map(|p| Dec { mantissa: p.mantissa(), scale: p.scale() })
}

/// `Decimal::checked_sub`. The result is named by [`decimal_difference`]. Where
/// both mantissas and their difference fit in 96 bits at the finer of the two
/// scales, the result is exact and no finer than that scale.
#[verifier::external_body]
pub(crate) fn dec_sub(a: Dec, b: Dec) -> (r: Option<Dec>)
    requires
        a.wf(),
        b.wf(),
    ensures
        parts(r) == decimal_difference(a@, b@),
        r is Some ==> r->0.wf(),
        ({
            let s = finer(a@, b@);
            let x = aligned(a@, s);
            let y = aligned(b@, s);
            fits(x) && fits(y) && fits(x - y) ==> r is Some && r->0.scale <= s && aligned(r->0@, s)
                == x - y
        }),
{
    let x = Decimal::from_i128_with_scale(a.mantissa, a.scale);
    let y = Decimal::from_i128_with_scale(b.mantissa, b.scale);
    x.checked_sub(y).map(|p| Dec { mantissa: p.mantissa(), scale: p.scale() })
}

/// `Decimal::floor`: the largest integer not above the number, at scale zero.
#[verifier::external_body]
pub(crate) fn dec_floor(a: Dec) -> (r: Dec)
    requires
        a.wf(),
    ensures
        r.wf(),
        r.scale == 0,
        r.mantissa == a.mantissa as int / pow10(a.scale as nat) as int,
{
    let f = Decimal::from_i128_with_scale(a.mantissa, a.scale).floor();
    Dec { mantissa: f.mantissa(), scale: f.scale() }
}

/// `<=` of `Decimal` (its `PartialOrd`): the order by value, whatever the scales.
#[verifier::external_body]
pub(crate) fn dec_le(a: Dec, b: Dec) -> (r: bool)
    requires
        a.wf(),
        b.wf(),
    ensures
        r == dec_at_most(a@, b@),
{
    let x = Decimal::from_i128_with_scale(a.mantissa, a.scale);
    let y = Decimal::from_i128_with_scale(b.mantissa, b.scale);
    x <= y
}

/// A decimal written with two places, the rest cut off.
pub open spec fn dec_text(a: (int, nat)) -> Seq<char> {
    let cents = (abs_of(a.0) as nat * 100) / pow10(a.1);
    let sign = if a.0 < 0 {
        seq!['-']
    } else {
        Seq::<char>::empty()
    };
    (sign + nat_text(cents / 100)).push('.') + padded_text(cents % 100, 2)
}

/// `Display` of `Decimal` with a precision of two: the digits beyond the second
/// place are cut off, not rounded.
#[verifier::external_body]
pub(crate) fn dec_string(a: Dec) -> (s: String)
    requires
        a.wf(),
    ensures
        s@ == dec_text(a@),
{
    format!("{:.2}", Decimal::from_i128_with_scale(a.mantissa, a.scale))
}

/// `d` is the number `v` with no trailing zero behind the decimal point.
pub open spec fn is_plain(d: (int, nat), v: int) -> bool {
    d.1 <= 12 && d.0 * pow10((12 - d.1) as nat) == v && (d.1 == 0 || d.0 % 10 != 0)
}

/// Whether the last decimal digit of `m` is zero.
fn ends_in_zero(m: i128) -> (r: bool)
    requires
        bounded(m as int),
    ensures
        r == (m as int % 10 == 0),
{
    if m >= 0 {
        m % 10 == 0
    } else {
        (-m) % 10 == 0
    }
}

/// The decimal of a fixed-point number, without trailing zeros.
pub fn dec_from_fixed(v: i128) -> (d: Dec)
    requires
        bounded(v as int),
    ensures
        d.wf(),
        is_plain(d@, v as int),
        abs_of(d.mantissa as int) <= abs_of(v as int),
{
    let mut m: i128 = v;
    let mut s: u32 = 12;
    assert(pow10(0) == 1);
    assert(m * pow10((12 - s) as nat) == v) by (nonlinear_arith)
        requires
            m == v,
            pow10((12 - s) as nat) == 1,
    ;
    let mut more: bool = ends_in_zero(m);
    while s > 0 && more
        invariant
            more == (m as int % 10 == 0),
            bounded(v as int),
            s <= 12,
            abs_of(m as int) <= abs_of(v as int),
            m * pow10((12 - s) as nat) == v,
        decreases s,
    {
        let t: i128 = if m >= 0 {
            m / 10
        } else {
            -((-m) / 10)
        };
        proof {
            assert(m == 10 * t);
            assert(pow10((12 - (s - 1)) as nat) == 10 * pow10((12 - s) as nat));
            assert(t * (10 * pow10((12 - s) as nat)) == m * pow10((12 - s) as nat)) by (nonlinear_arith)
                requires
                    m == 10 * t,
            ;
        }
        m = t;
        s -= 1;
        more = ends_in_zero(m);
    }
    Dec { mantissa: m, scale: s }
}

/// There is one plain decimal of a number.
pub proof fn lemma_plain_unique(a: (int, nat), b: (int, nat), v: int)
    requires
        is_plain(a, v),
        is_plain(b, v),
    ensures
        a == b,
{
    if a.1 < b.1 {
        lemma_plain_order(a, b, v);
    } else if b.1 < a.1 {
        lemma_plain_order(b, a, v);
    } else {
        let p = pow10((12 - a.1) as nat) as int;
        lemma_pow10_positive((12 - a.1) as nat);
        assert(a.0 == b.0) by (nonlinear_arith)
            requires
                a.0 * p == v,
                b.0 * p == v,
                p > 0,
        ;
    }
}

/// A plain decimal has the coarsest scale that its number allows.
proof fn lemma_plain_order(a: (int, nat), b: (int, nat), v: int)
    requires
        is_plain(a, v),
        is_plain(b, v),
        a.1 < b.1,
    ensures
        a == b,
{
    let k = (b.1 - a.1 - 1) as nat;
    let p = pow10((12 - b.1) as nat) as int;
    lemma_pow10_positive((12 - b.1) as nat);
    lemma_pow10_add((12 - b.1) as nat, (k + 1) as nat);
    assert((12 - b.1) as nat + (k + 1) as nat == (12 - a.1) as nat);
    let q = pow10((k + 1) as nat) as int;
    let h = pow10(k) as int;
    assert(q == 10 * h);
    assert(b.0 == 10 * (a.0 * h)) by (nonlinear_arith)
        requires
            a.0 * (p * q) == b.0 * p,
            q == 10 * h,
            p > 0,
    ;
}

/// The plain decimal of a fixed-point number.
pub open spec fn plain(v: int) -> (int, nat) {
    choose|d: (int, nat)| is_plain(d, v)
}

/// The decimal of a fixed-point number.
pub fn plain_dec(v: i128) -> (d: Dec)
    requires
        bounded(v as int),
    ensures
        d.wf(),
        d@ == plain(v as int),
        is_plain(d@, v as int),
{
    let d: Dec = dec_from_fixed(v);
    proof {
        lemma_plain_unique(d@, plain(v as int), v as int);
    }
    d
}

/// A fixed-point number written with no more places than it needs.
pub open spec fn plain_text(v: int) -> Seq<char> {
    let d = plain(v);
    let m = abs_of(d.0) as nat;
    let sign = if d.0 < 0 {
        seq!['-']
    } else {
        Seq::<char>::empty()
    };
    let whole = sign + nat_text(m / pow10(d.1));
    if d.1 == 0 {
        whole
    } else {
        whole.push('.') + padded_text(m % pow10(d.1), d.1)
    }
}

/// A fixed-point number written with no more places than it needs.
pub fn plain_string(v: i128) -> (s: String)
    requires
        bounded(v as int),
    ensures
        s@ == plain_text(v as int),
{
    let d: Dec = plain_dec(v);
    let m: u128 = magnitude(d.mantissa);
    let unit: u128 = ten_to(d.scale);
    let mut s: String = String::new();
    if d.mantissa < 0 {
        s.push('-');
    }
    s.append(nat_string(m / unit).as_str());
    if d.scale > 0 {
        s.push('.');
        s.append(padded_string(m % unit, d.scale).as_str());
    }
    assert(s@ =~= plain_text(v as int));
    s
}

/// The fixed-point number nearest to a decimal.
pub open spec fn nearest_fixed(d: (int, nat)) -> int {
    if d.1 <= 12 {
        d.0 * pow10((12 - d.1) as nat)
    } else {
        round_div(d.0, pow10((d.1 - 12) as nat) as int)
    }
}

/// The fixed-point number nearest to a decimal, `None` where its magnitude is
/// beyond what fixed-point arithmetic accepts.
pub fn fixed_from_dec(d: Dec) -> (r: Option<i128>)
    requires
        d.wf(),
    ensures
        r is Some <==> bounded(nearest_fixed(d@)),
        r is Some ==> r->0 == nearest_fixed(d@),
{
    if d.scale <= 12 {
        let p: i128 = ten_to(12 - d.scale) as i128;
        let top: i128 = LIMIT / p;
        proof {
            vstd::arithmetic::div_mod::lemma_fundamental_div_mod(LIMIT as int, p as int);
            let m = d.mantissa as int;
            if -top <= m <= top {
                assert(bounded(m * p)) by (nonlinear_arith)
                    requires
                        -top <= m <= top,
                        p > 0,
                        p * top <= LIMIT,
                ;
            } else {
                assert(!bounded(m * p)) by (nonlinear_arith)
                    requires
                        m >= top + 1 || m <= -top - 1,
                        p > 0,
                        p * top > LIMIT - p,
                ;
            }
        }
        if d.mantissa < -top || d.mantissa > top {
            None
        } else {
            Some(d.mantissa * p)
        }
    } else {
        let p: i128 = ten_to(d.scale - 12) as i128;
        let v: i128 = div_round(d.mantissa, p);
        if v < -LIMIT || v > LIMIT {
            None
        } else {
            Some(v)
        }
    }
}

/// The largest multiple of `step` not above `value`, as decimal arithmetic gives it.
pub open spec fn stepped_down(value: (int, nat), step: (int, nat)) -> Option<(int, nat)> {
    if step.0 <= 0 {
        Some(value)
    } else {
        match decimal_quotient(value, step) {
            Some(q) => decimal_product((q.0 / pow10(q.1) as int, 0), step),
            None => None,
        }
    }
}

/// `r` is a whole number of steps but for rounding: the whole part of `q`, which
/// is `v / step`.
pub open spec fn stepped_near(v: (int, nat), step: (int, nat), q: (int, nat), r: (int, nat)) -> bool {
    let n = q.0 / pow10(q.1) as int;
    &&& q.1 <= MAX_SCALE
    &&& near_quotient(v, step, q)
    &&& near_product((n, 0), step, r)
    &&& (n == 0 ==> r.0 == 0)
}

/// `value` rounded down to a multiple of `step`; a step that is not positive
/// leaves it as it is.
pub fn round_down_to_step_dec(value: Dec, step: Dec) -> (r: Option<Dec>)
    requires
        value.wf(),
        step.wf(),
    ensures
        parts(r) == stepped_down(value@, step@),
        r is Some ==> r->0.wf(),
        r is Some && step.mantissa > 0 ==> stepped_near(
            value@,
            step@,
            decimal_quotient(value@, step@)->0,
            r->0@,
        ),
{
    if step.mantissa <= 0 {
        return Some(value);
    }
    match dec_div(value, step) {
        Some(q) => dec_mul(dec_floor(q), step),
        None => None,
    }
}

/// `price * qty`.
pub fn notional_dec(price: Dec, qty: Dec) -> (r: Option<Dec>)
    requires
        price.wf(),
        qty.wf(),
    ensures
        parts(r) == decimal_product(price@, qty@),
        r is Some ==> r->0.wf(),
        price.mantissa == 0 || qty.mantissa == 0 ==> parts(r) == Some((0int, 0nat)),
        price.mantissa != 0 && qty.mantissa != 0 && fits(price.mantissa * qty.mantissa)
            && price.scale + qty.scale <= MAX_SCALE ==> parts(r) == Some(
            (price.mantissa * qty.mantissa, (price.scale + qty.scale) as nat),
        ),
        r is Some ==> near_product(price@, qty@, r->0@),
{
    dec_mul(price, qty)
}

/// The whole part of a number is not above it.
pub proof fn lemma_whole_part(q: (int, nat))
    requires
        q.1 <= MAX_SCALE,
    ensures
        (q.0 / pow10(q.1) as int) * pow10(28) <= value(q),
        value(q) <= (q.0 / pow10(q.1) as int + 1) * pow10(28),
{
    let p = pow10(q.1) as int;
    let rest = pow10((28 - q.1) as nat) as int;
    lemma_pow10_positive(q.1);
    lemma_pow10_positive((28 - q.1) as nat);
    lemma_pow10_add(q.1, (28 - q.1) as nat);
    let n = q.0 / p;
    vstd::arithmetic::div_mod::lemma_fundamental_div_mod(q.0, p);
    assert(n * (p * rest) <= q.0 * rest) by (nonlinear_arith)
        requires
            q.0 >= p * n,
            rest > 0,
    ;
    assert(q.0 * rest <= (n + 1) * (p * rest)) by (nonlinear_arith)
        requires
            q.0 <= p * n + p,
            rest > 0,
    ;
}

/// A plain decimal counts its number.
pub proof fn lemma_plain_value(d: (int, nat), v: int)
    requires
        is_plain(d, v),
    ensures
        value(d) == v * 10_000_000_000_000_000,
{
    lemma_pow10_28();
    lemma_pow10_add((12 - d.1) as nat, 16);
    assert(((12 - d.1) as nat + 16) as nat == (28 - d.1) as nat);
    assert(pow10(16) == 10_000_000_000_000_000) by {
        reveal_with_fuel(pow10, 17);
    }
    assert(d.0 * (pow10((12 - d.1) as nat) * 10_000_000_000_000_000) == v * 10_000_000_000_000_000)
        by (nonlinear_arith)
        requires
            d.0 * pow10((12 - d.1) as nat) == v,
    ;
}

/// A number and its count have the same sign.
pub proof fn lemma_value_sign(d: (int, nat))
    requires
        d.1 <= MAX_SCALE,
    ensures
        d.0 > 0 <==> value(d) > 0,
        d.0 < 0 <==> value(d) < 0,
{
    let p = pow10((28 - d.1) as nat) as int;
    lemma_pow10_positive((28 - d.1) as nat);
    assert((d.0 > 0 <==> d.0 * p > 0) && (d.0 < 0 <==> d.0 * p < 0)) by (nonlinear_arith)
        requires
            p > 0,
    ;
}

/// The smallest difference that counts: `10^-12`.
pub fn tolerance_usdt() -> (d: Dec)
    ensures
        d.wf(),
        d@ == (1int, 12nat),
{
    Dec { mantissa: 1, scale: 12 }
}

} // verus!
