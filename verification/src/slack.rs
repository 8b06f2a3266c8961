//! How far decimal sizing is from exact arithmetic.
//!
//! The decimals of [`crate::money`] round their products and quotients. Here the
//! rounding is bounded, in parts of `10^-28`, along the way from the risk of a trade to
//! its size.
use crate::fixed::{abs_of, bounded, lemma_round_div_error, LIMIT};
use crate::money::{
    aligned, dec_at_most, lemma_value_sign, lemma_whole_part, near_product, near_quotient,
    nearest_fixed, stepped_near, value,
};
use crate::text::{lemma_pow10_28, lemma_pow10_add, lemma_pow10_positive, pow10};
use vstd::prelude::*;

verus! {

/// `10^28`.
pub const PARTS: i128 = 10_000_000_000_000_000_000_000_000_000;

/// One step of a fixed-point number in parts of `10^-28`.
pub const STEP_PARTS: i128 = 10_000_000_000_000_000;

/// `10^27`.
pub const TENTH: i128 = 1_000_000_000_000_000_000_000_000_000;

/// The powers of ten that the bounds are stated with.
pub proof fn lemma_powers()
    ensures
        pow10(28) == PARTS,
        pow10(27) == TENTH,
        pow10(16) == STEP_PARTS,
{
    lemma_pow10_28();
    assert(pow10(28) == 10 * pow10(27));
    assert(pow10(16) == STEP_PARTS) by {
        reveal_with_fuel(pow10, 17);
    }
}

/// Whether `z` is `ks`, but for one part and `10^-27` of it.
pub open spec fn close(z: int, ks: int) -> bool {
    abs_of(z - ks) * TENTH <= TENTH + abs_of(z)
}

/// Whether the steps `ks` are no more than `x` but for two parts in `10^27`.
pub open spec fn no_more(ks: int, x: int) -> bool {
    ks * (TENTH - 2) <= x * TENTH
}

/// Whether the steps `ks` are less than one step `s` under `x`, but for two parts in
/// `10^27`.
pub open spec fn no_less(ks: int, s: int, x: int) -> bool {
    x * TENTH <= (ks + s) * (TENTH + 2)
}

/// Whether `x` times `d` is no less than `c`, but for one part in `10^27` and `d`
/// itself.
pub open spec fn used_up(x: int, d: int, c: int) -> bool {
    c * PARTS * TENTH <= (x * d) * (TENTH + 1) + d * TENTH
}

/// Whether `w` is the product of `e` and `z` but for rounding.
pub open spec fn worth(w: int, e: int, z: int) -> bool {
    abs_of(w * PARTS - e * z) * TENTH <= PARTS * (TENTH + abs_of(w))
}

/// Whether `x` times `d` is no more than `c`, but for one part in `10^27` and `d`
/// itself.
pub open spec fn shared(x: int, d: int, c: int) -> bool {
    (x * d) * (TENTH - 1) <= c * PARTS * TENTH + d * TENTH
}

/// A rounded quotient is the exact one but for its rounding.
proof fn lemma_shared(x: int, d: int, c: int)
    requires
        d > 0,
        x > 0,
        abs_of(x * d - c * PARTS) * TENTH <= d * (TENTH + abs_of(x)),
    ensures
        shared(x, d, c),
        used_up(x, d, c),
{
    let xd = x * d;
    assert(d * (TENTH + x) == d * TENTH + xd) by (nonlinear_arith)
        requires
            xd == x * d,
    ;
}

/// The whole steps in a rounded quotient are no more than the dividend, and one step more
/// is no less.
proof fn lemma_no_more(x: int, y: int, k: int, s: int)
    requires
        s > 0,
        k >= 1,
        k * PARTS <= y <= (k + 1) * PARTS,
        abs_of(y * s - x * PARTS) * TENTH <= s * (TENTH + abs_of(y)),
    ensures
        no_more(k * s, x),
        no_less(k * s, s, x),
        k * s > 0,
{
    let ys = y * s;
    let ks = k * s;
    assert(s * (TENTH + y) == s * TENTH + ys) by (nonlinear_arith)
        requires
            ys == y * s,
    ;
    assert(ys >= s * PARTS) by (nonlinear_arith)
        requires
            y >= PARTS,
            s > 0,
            ys == y * s,
    ;
    assert(ys * (TENTH - 2) <= x * PARTS * TENTH);
    assert(ks * PARTS <= ys) by (nonlinear_arith)
        requires
            k * PARTS <= y,
            s > 0,
            ys == y * s,
            ks == k * s,
    ;
    assert(ks > 0) by (nonlinear_arith)
        requires
            k >= 1,
            s > 0,
            ks == k * s,
    ;
    assert(ys <= (ks + s) * PARTS) by (nonlinear_arith)
        requires
            y <= (k + 1) * PARTS,
            s > 0,
            ys == y * s,
            ks == k * s,
    ;
}

/// A rounded product of a count and a step is close to the exact one.
proof fn lemma_close(z: int, k: int, s: int)
    requires
        abs_of(z * PARTS - (k * PARTS) * s) * TENTH <= PARTS * (TENTH + abs_of(z)),
    ensures
        close(z, k * s),
{
    let ks = k * s;
    assert((k * PARTS) * s == ks * PARTS) by (nonlinear_arith)
        requires
            ks == k * s,
    ;
}

/// A size in whole steps: `r` is close to `ks`, which is a whole number of steps and no
/// more than `v`.
pub open spec fn in_steps(r: int, ks: int, step: int, v: int) -> bool {
    &&& close(r, ks)
    &&& no_more(ks, v)
    &&& no_less(ks, step, v)
    &&& ks > 0
    &&& exists|k: int| ks == #[trigger] (k * step)
}

/// What rounding down to a step gives is a size in whole steps.
pub proof fn lemma_stepped(v: (int, nat), step: (int, nat), q: (int, nat), r: (int, nat)) -> (ks: int)
    requires
        step.1 <= 28,
        step.0 > 0,
        r.1 <= 28,
        r.0 > 0,
        stepped_near(v, step, q, r),
    ensures
        in_steps(value(r), ks, value(step), value(v)),
{
    lemma_powers();
    let k = q.0 / pow10(q.1) as int;
    let s = value(step);
    lemma_value_sign(step);
    lemma_value_sign(r);
    lemma_whole_part(q);
    assert(value((k, 0nat)) == k * PARTS);
    if k <= 0 {
        assert(k <= -1);
        assert((k * PARTS) * s <= -PARTS) by (nonlinear_arith)
            requires
                k <= -1,
                s >= 1,
        ;
    }
    lemma_no_more(value(v), value(q), k, s);
    lemma_close(value(r), k, s);
    k * s
}

/// What a quotient shares out.
pub proof fn lemma_quotient_shares(a: (int, nat), b: (int, nat), q: (int, nat))
    requires
        b.1 <= 28,
        b.0 > 0,
        q.1 <= 28,
        q.0 > 0,
        near_quotient(a, b, q),
    ensures
        shared(value(q), value(b), value(a)),
        used_up(value(q), value(b), value(a)),
{
    lemma_powers();
    lemma_value_sign(b);
    lemma_value_sign(q);
    lemma_shared(value(q), value(b), value(a));
}

/// A product is worth its factors.
pub proof fn lemma_product_worth(a: (int, nat), b: (int, nat), p: (int, nat))
    requires
        near_product(a, b, p),
    ensures
        worth(value(p), value(a), value(b)),
{
    lemma_powers();
}

/// A decimal is within half a step of the fixed-point number nearest to it.
pub proof fn lemma_nearest(d: (int, nat))
    requires
        d.1 <= 28,
    ensures
        2 * abs_of(value(d) - nearest_fixed(d) * STEP_PARTS) <= STEP_PARTS,
{
    lemma_powers();
    if d.1 <= 12 {
        let p = pow10((12 - d.1) as nat) as int;
        lemma_pow10_add((12 - d.1) as nat, 16);
        assert(((12 - d.1) as nat + 16) as nat == (28 - d.1) as nat);
        assert(d.0 * (p * STEP_PARTS) == (d.0 * p) * STEP_PARTS) by (nonlinear_arith);
    } else {
        let p = pow10((d.1 - 12) as nat) as int;
        let rest = pow10((28 - d.1) as nat) as int;
        lemma_pow10_positive((d.1 - 12) as nat);
        lemma_pow10_positive((28 - d.1) as nat);
        lemma_pow10_add((d.1 - 12) as nat, (28 - d.1) as nat);
        assert(((d.1 - 12) as nat + (28 - d.1) as nat) as nat == 16);
        lemma_round_div_error(d.0, p);
        let v = nearest_fixed(d);
        let vp = v * p;
        assert(2 * d.0 - p <= 2 * vp <= 2 * d.0 + p);
        assert(v * (p * rest) == vp * rest) by (nonlinear_arith)
            requires
                vp == v * p,
        ;
        assert((2 * d.0 - p) * rest <= (2 * vp) * rest && (2 * vp) * rest <= (2 * d.0 + p) * rest)
            by (nonlinear_arith)
            requires
                2 * d.0 - p <= 2 * vp <= 2 * d.0 + p,
                rest > 0,
        ;
        assert((2 * d.0 - p) * rest == 2 * (d.0 * rest) - p * rest && (2 * d.0 + p) * rest == 2 * (
        d.0 * rest) + p * rest && (2 * vp) * rest == 2 * (vp * rest)) by (nonlinear_arith);
    }
}

/// The fixed-point number nearest to a size in whole steps is a whole number of steps.
pub proof fn lemma_nearest_steps(d: (int, nat), ks: int, step: int)
    requires
        d.1 <= 28,
        0 < nearest_fixed(d) <= LIMIT,
        step > 0,
        close(value(d), ks),
        exists|k: int| ks == #[trigger] (k * (step * STEP_PARTS)),
    ensures
        nearest_fixed(d) * STEP_PARTS == ks,
        nearest_fixed(d) % step == 0,
{
    lemma_nearest(d);
    let k = choose|k: int| ks == #[trigger] (k * (step * STEP_PARTS));
    let m = k * step;
    assert(k * (step * STEP_PARTS) == m * STEP_PARTS) by (nonlinear_arith)
        requires
            m == k * step,
    ;
    assert(nearest_fixed(d) == m);
    vstd::arithmetic::div_mod::lemma_mod_multiples_basic(k, step);
}

/// A trade is worth its price times its whole steps, but for a small part of a step.
pub proof fn lemma_worth_steps(w: int, e: int, z: int, ks: int)
    requires
        worth(w, e, z),
        close(z, ks),
        0 < e <= LIMIT * STEP_PARTS,
        0 < z <= 2 * LIMIT * STEP_PARTS,
        0 < w <= 2 * LIMIT * STEP_PARTS,
    ensures
        abs_of(w * PARTS - e * ks) <= PARTS * 50_000_000_000_000,
{
    let ez = e * z;
    let eks = e * ks;
    assert(-(e * TENTH + ez) <= (ez - eks) * TENTH <= e * TENTH + ez) by (nonlinear_arith)
        requires
            -(TENTH + z) <= (z - ks) * TENTH <= TENTH + z,
            e > 0,
            ez == e * z,
            eks == e * ks,
    ;
}

/// What the risk allows is lost at most, but for a small part of a step.
pub proof fn lemma_risk_kept(ks: int, x: int, d: int, rk: int)
    requires
        no_more(ks, x),
        shared(x, d, rk),
        0 < d <= 2 * LIMIT * STEP_PARTS,
        0 <= rk <= 2 * LIMIT * STEP_PARTS,
    ensures
        ks * d <= rk * PARTS + 1_000_000_000_000_000_000_000_000_000_000_000_000_000_000,
{
    let q = ks * d;
    let xd = x * d;
    assert(q * (TENTH - 2) <= xd * TENTH) by (nonlinear_arith)
        requires
            ks * (TENTH - 2) <= x * TENTH,
            d > 0,
            q == ks * d,
            xd == x * d,
    ;
}

/// One step more would lose what the risk allows, but for a small part of a step.
pub proof fn lemma_risk_used(ks: int, s: int, x: int, d: int, rk: int)
    requires
        no_less(ks, s, x),
        used_up(x, d, rk),
        0 < d <= 2 * LIMIT * STEP_PARTS,
        0 <= rk <= 2 * LIMIT * STEP_PARTS,
    ensures
        rk * PARTS <= (ks + s) * d + 1_000_000_000_000_000_000_000_000_000_000_000_000_000_000,
{
    let q = (ks + s) * d;
    let xd = x * d;
    assert(xd * TENTH <= q * (TENTH + 2)) by (nonlinear_arith)
        requires
            x * TENTH <= (ks + s) * (TENTH + 2),
            d > 0,
            q == (ks + s) * d,
            xd == x * d,
    ;
}

/// What a cap buys is worth no more than the cap, but for a small part of a step.
pub proof fn lemma_cap_kept(c: int, e: int, x: int, ks: int, z: int, w: int)
    requires
        0 < c <= LIMIT * STEP_PARTS,
        0 < e <= LIMIT * STEP_PARTS,
        shared(x, e, c),
        no_more(ks, x),
        close(z, ks),
        z > 0,
        worth(w, e, z),
    ensures
        w <= c + 1_000_000_000_000_000,
        e * ks <= c * PARTS + 1_000_000_000_000_000_000_000_000_000_000_000_000_000_000,
{
    let xe = x * e;
    let eks = e * ks;
    let ez = e * z;
    assert(eks * (TENTH - 2) <= xe * TENTH) by (nonlinear_arith)
        requires
            ks * (TENTH - 2) <= x * TENTH,
            e > 0,
            eks == e * ks,
            xe == x * e,
    ;
    assert(ez * (TENTH - 1) <= eks * TENTH + e * TENTH) by (nonlinear_arith)
        requires
            z * (TENTH - 1) <= ks * TENTH + TENTH,
            e > 0,
            ez == e * z,
            eks == e * ks,
    ;
    if w > 0 {
        assert((w * PARTS - ez) * TENTH <= PARTS * TENTH + PARTS * w);
    }
}

/// The same for a quantity that is not rounded to a step.
pub proof fn lemma_cap_kept_unstepped(c: int, e: int, x: int, w: int)
    requires
        0 < c <= LIMIT * STEP_PARTS,
        0 < e <= LIMIT * STEP_PARTS,
        shared(x, e, c),
        worth(w, e, x),
    ensures
        w <= c + 1_000_000_000_000_000,
{
    let xe = x * e;
    assert(e * x == xe) by (nonlinear_arith)
        requires
            xe == x * e,
    ;
    if w > 0 {
        assert((w * PARTS - xe) * TENTH <= PARTS * TENTH + PARTS * w);
    }
}

/// A trade that is worth more than a cap has at least the steps that the cap buys, but
/// for a small part of a step's worth.
pub proof fn lemma_cap_shrinks(c: int, e: int, ks: int, z0: int, ks0: int, w0: int)
    requires
        0 < c <= LIMIT * STEP_PARTS,
        0 < e <= LIMIT * STEP_PARTS,
        e * ks <= c * PARTS + 1_000_000_000_000_000_000_000_000_000_000_000_000_000_000,
        close(z0, ks0),
        z0 > 0,
        worth(w0, e, z0),
        w0 > c,
    ensures
        e * (ks - ks0) <= 4_000_000_000_000_000_000_000_000_000_000_000_000_000_000,
{
    let eks = e * ks;
    let eks0 = e * ks0;
    let ez0 = e * z0;
    assert(e * (ks - ks0) == eks - eks0) by (nonlinear_arith)
        requires
            eks == e * ks,
            eks0 == e * ks0,
    ;
    assert(ez0 * (TENTH - 1) <= eks0 * TENTH + e * TENTH) by (nonlinear_arith)
        requires
            z0 * (TENTH - 1) <= ks0 * TENTH + TENTH,
            e > 0,
            ez0 == e * z0,
            eks0 == e * ks0,
    ;
    assert((w0 * PARTS - ez0) * TENTH <= PARTS * TENTH + PARTS * w0);
}

/// Decimals are ordered as their values are.
pub proof fn lemma_order(a: (int, nat), b: (int, nat))
    requires
        a.1 <= 28,
        b.1 <= 28,
    ensures
        dec_at_most(a, b) <==> value(a) <= value(b),
{
    let pa = pow10(a.1) as int;
    let pb = pow10(b.1) as int;
    let ra = pow10((28 - a.1) as nat) as int;
    let rb = pow10((28 - b.1) as nat) as int;
    lemma_pow10_positive(a.1);
    lemma_pow10_positive(b.1);
    lemma_pow10_positive((28 - a.1) as nat);
    lemma_pow10_positive((28 - b.1) as nat);
    lemma_pow10_add(a.1, (28 - a.1) as nat);
    lemma_pow10_add(b.1, (28 - b.1) as nat);
    assert((a.1 + (28 - a.1) as nat) as nat == 28 && (b.1 + (28 - b.1) as nat) as nat == 28);
    assert(pa * ra == pb * rb);
    let x = a.0 * ra;
    let y = b.0 * rb;
    let u = a.0 * pb;
    let v = b.0 * pa;
    let m = pa * pb;
    let n = pa * ra;
    assert(x * m == u * n) by (nonlinear_arith)
        requires
            x == a.0 * ra,
            u == a.0 * pb,
            m == pa * pb,
            n == pa * ra,
    ;
    assert(y * m == v * n) by (nonlinear_arith)
        requires
            y == b.0 * rb,
            v == b.0 * pa,
            m == pa * pb,
            n == pb * rb,
    ;
    assert(m > 0 && n > 0) by (nonlinear_arith)
        requires
            m == pa * pb,
            n == pa * ra,
            pa > 0,
            pb > 0,
            ra > 0,
    ;
    assert((u <= v) == (x <= y)) by (nonlinear_arith)
        requires
            x * m == u * n,
            y * m == v * n,
            m > 0,
            n > 0,
    ;
}

/// An exact product of two decimals counts the product of their numbers.
pub proof fn lemma_exact_product(a: (int, nat), b: (int, nat))
    requires
        a.1 + b.1 <= 28,
    ensures
        value((a.0 * b.0, (a.1 + b.1) as nat)) * PARTS == value(a) * value(b),
{
    lemma_powers();
    let r = pow10((28 - a.1 - b.1) as nat) as int;
    let pa = pow10(a.1) as int;
    let pb = pow10(b.1) as int;
    lemma_pow10_add((28 - a.1 - b.1) as nat, b.1);
    lemma_pow10_add((28 - a.1 - b.1) as nat, a.1);
    lemma_pow10_add((28 - a.1) as nat, a.1);
    assert(((28 - a.1 - b.1) as nat + b.1) as nat == (28 - a.1) as nat);
    assert(((28 - a.1 - b.1) as nat + a.1) as nat == (28 - b.1) as nat);
    assert(((28 - a.1) as nat + a.1) as nat == 28);
    assert(((a.0 * b.0) * r) * ((r * pb) * pa) == (a.0 * (r * pb)) * (b.0 * (r * pa)))
        by (nonlinear_arith);
}

/// An exact sum or difference at twelve places counts its number.
pub proof fn lemma_aligned_value(d: (int, nat), s: nat, v: int)
    requires
        d.1 <= s <= 12,
        aligned(d, s) * pow10((12 - s) as nat) == v,
    ensures
        value(d) == v * STEP_PARTS,
{
    lemma_powers();
    let a = pow10((s - d.1) as nat) as int;
    let b = pow10((12 - s) as nat) as int;
    lemma_pow10_add((s - d.1) as nat, (12 - s) as nat);
    assert(((s - d.1) as nat + (12 - s) as nat) as nat == (12 - d.1) as nat);
    lemma_pow10_add((12 - d.1) as nat, 16);
    assert(((12 - d.1) as nat + 16) as nat == (28 - d.1) as nat);
    assert(d.0 * ((a * b) * STEP_PARTS) == ((d.0 * a) * b) * STEP_PARTS) by (nonlinear_arith);
}

/// Where rounding down to a step leaves nothing, there was less than a step, but for a small
/// part of it.
pub proof fn lemma_no_step(v: (int, nat), step: (int, nat), q: (int, nat), r: (int, nat))
    requires
        step.1 <= 28,
        value(step) >= 2,
        r.1 <= 28,
        r.0 <= 0,
        stepped_near(v, step, q, r),
        value(v) > 0,
    ensures
        no_less(0, value(step), value(v)),
{
    lemma_powers();
    let k = q.0 / pow10(q.1) as int;
    let s = value(step);
    let x = value(v);
    let y = value(q);
    let z = value(r);
    lemma_value_sign(r);
    lemma_whole_part(q);
    assert(value((k, 0nat)) == k * PARTS);
    if k >= 1 {
        assert((k * PARTS) * s >= 2 * PARTS) by (nonlinear_arith)
            requires
                k >= 1,
                s >= 2,
        ;
    }
    assert(k <= 0);
    assert(y <= PARTS);
    let ys = y * s;
    if y >= 0 {
        assert(ys <= PARTS * s && s * (TENTH + y) == s * TENTH + ys) by (nonlinear_arith)
            requires
                0 <= y <= PARTS,
                s > 0,
                ys == y * s,
        ;
    } else {
        assert(ys <= 0 && s * (TENTH + (-y)) == s * TENTH - ys) by (nonlinear_arith)
            requires
                y < 0,
                s > 0,
                ys == y * s,
        ;
    }
}

/// A quotient that is not positive leaves less than the divisor.
pub proof fn lemma_nothing_shared(a: (int, nat), b: (int, nat), q: (int, nat))
    requires
        near_quotient(a, b, q),
        value(b) > 0,
        value(q) <= 0,
    ensures
        value(a) * PARTS <= value(b),
{
    lemma_powers();
    let x = value(q);
    let d = value(b);
    let xd = x * d;
    assert(xd <= 0 && d * (TENTH + (-x)) == d * TENTH - xd) by (nonlinear_arith)
        requires
            x <= 0,
            d > 0,
            xd == x * d,
    ;
}

/// What is bought in whole steps at a price has a value.
pub proof fn lemma_has_worth(w: int, e: int, z: int, ks: int)
    requires
        worth(w, e, z),
        close(z, ks),
        ks >= STEP_PARTS,
        e >= STEP_PARTS,
        z > 0,
    ensures
        w > 0,
{
    assert(z * 2 >= ks);
    assert(e * z >= STEP_PARTS * 5_000_000_000_000_000) by (nonlinear_arith)
        requires
            e >= STEP_PARTS,
            z >= 5_000_000_000_000_000,
    ;
}

} // verus!
