//! Reading decimal numerals.
use crate::fixed::{
    bounded, lemma_round_div_monotone, lemma_round_div_shift, min_of, round_div, LIMIT,
};
use crate::text::{
    chars_of, lemma_pow10_28, lemma_pow10_add, lemma_pow10_monotone, lemma_pow10_positive, pow10,
    ten_to,
};
use vstd::prelude::*;

verus! {

/// Whether a character is a decimal digit.
pub open spec fn is_digit(c: char) -> bool {
    '0' <= c && c <= '9'
}

/// Whether all characters are decimal digits.
pub open spec fn all_digits(s: Seq<char>) -> bool {
    forall|i: int| 0 <= i < s.len() ==> is_digit(#[trigger] s[i])
}

/// The number that a row of digits stands for.
pub open spec fn digits_value(s: Seq<char>) -> nat
    decreases s.len(),
{
    if s.len() == 0 {
        0
    } else {
        10 * digits_value(s.drop_last()) + (s.last() as int - '0' as int) as nat
    }
}

/// The part of a numeral behind its sign.
pub open spec fn unsigned_part(s: Seq<char>) -> Seq<char> {
    if s.len() > 0 && (s[0] == '-' || s[0] == '+') {
        s.drop_first()
    } else {
        s
    }
}

/// The position of the first point, or the length where there is none.
pub open spec fn point_at(s: Seq<char>) -> nat
    decreases s.len(),
{
    if s.len() == 0 || s[0] == '.' {
        0
    } else {
        1 + point_at(s.drop_first())
    }
}

/// The digits before the point.
pub open spec fn whole_digits(s: Seq<char>) -> Seq<char> {
    s.take(point_at(s) as int)
}

/// The digits behind the point.
pub open spec fn fraction_digits(s: Seq<char>) -> Seq<char> {
    if point_at(s) < s.len() {
        s.skip(point_at(s) as int + 1)
    } else {
        Seq::empty()
    }
}

/// Whether an unsigned text is a numeral: digits with at most one point among
/// them, and at least one digit.
pub open spec fn is_numeral(s: Seq<char>) -> bool {
    &&& all_digits(whole_digits(s))
    &&& all_digits(fraction_digits(s))
    &&& whole_digits(s).len() + fraction_digits(s).len() > 0
}

/// The number of an unsigned numeral in steps of `10^-12`, rounded to the nearest
/// step.
pub open spec fn numeral_steps(s: Seq<char>) -> int {
    let f = fraction_digits(s).len();
    let n = digits_value(whole_digits(s) + fraction_digits(s));
    if f <= 12 {
        (n * pow10((12 - f) as nat)) as int
    } else {
        round_div(n as int, pow10((f - 12) as nat) as int)
    }
}

/// The position of the first `e` or `E`, or the length where there is none.
pub open spec fn mark_at(s: Seq<char>) -> nat
    decreases s.len(),
{
    if s.len() == 0 || s[0] == 'e' || s[0] == 'E' {
        0
    } else {
        1 + mark_at(s.drop_first())
    }
}

/// What stands before the exponent.
pub open spec fn body_of(s: Seq<char>) -> Seq<char> {
    s.take(mark_at(s) as int)
}

/// The number behind an optional sign, `None` where it is no row of digits.
pub open spec fn signed_row(t: Seq<char>) -> Option<int> {
    let row = unsigned_part(t);
    if row.len() > 0 && all_digits(row) {
        Some(
            if t[0] == '-' {
                -(digits_value(row) as int)
            } else {
                digits_value(row) as int
            },
        )
    } else {
        None
    }
}

/// The exponent of an unsigned text: zero where there is none, `None` where it is no
/// number.
pub open spec fn exponent_of(s: Seq<char>) -> Option<int> {
    if mark_at(s) < s.len() {
        signed_row(s.skip(mark_at(s) as int + 1))
    } else {
        Some(0)
    }
}

/// The number of an unsigned numeral times `10^e`, in steps of `10^-12`, rounded to
/// the nearest step.
pub open spec fn steps_with(s: Seq<char>, e: int) -> int {
    let n = digits_value(whole_digits(s) + fraction_digits(s));
    let places = fraction_digits(s).len() - e;
    if places <= 12 {
        (n * pow10((12 - places) as nat)) as int
    } else {
        round_div(n as int, pow10((places - 12) as nat) as int)
    }
}

/// The fixed-point number that a text stands for: a sign or none, a numeral, and an
/// exponent or none. `None` where it is nothing of the kind. A magnitude out of range
/// counts as the largest one.
pub open spec fn fixed_value(s: Seq<char>) -> Option<i128> {
    let u = unsigned_part(s);
    let b = body_of(u);
    if is_numeral(b) && exponent_of(u) is Some {
        let steps = min_of(steps_with(b, exponent_of(u)->0), LIMIT as int);
        Some(
            (if s[0] == '-' {
                -steps
            } else {
                steps
            }) as i128,
        )
    } else {
        None
    }
}

pub proof fn lemma_digits_push(s: Seq<char>, c: char)
    ensures
        digits_value(s.push(c)) == 10 * digits_value(s) + (c as int - '0' as int) as nat,
{
    assert(s.push(c).drop_last() =~= s);
}

/// Appending digits only makes a number larger, and appending `k` of them
/// multiplies it by `10^k` but for the digits themselves.
pub proof fn lemma_digits_extend(s: Seq<char>, t: Seq<char>)
    requires
        all_digits(t),
    ensures
        digits_value(s + t) == digits_value(s) * pow10(t.len()) + digits_value(t),
        digits_value(t) < pow10(t.len()),
    decreases t.len(),
{
    if t.len() == 0 {
        assert(s + t =~= s);
        assert(pow10(0) == 1);
        assert(digits_value(s) * 1 == digits_value(s)) by (nonlinear_arith);
    } else {
        let u = t.drop_last();
        let c = t.last();
        lemma_digits_extend(s, u);
        assert(t =~= u.push(c));
        assert(s + t =~= (s + u).push(c));
        lemma_digits_push(s + u, c);
        lemma_digits_push(u, c);
        assert(is_digit(t[t.len() - 1]));
        let p = pow10(u.len());
        assert(pow10(t.len()) == 10 * p);
        assert(digits_value(s) * (10 * p) == 10 * (digits_value(s) * p)) by (nonlinear_arith);
    }
}

/// Dropping all but the first digit behind the twelfth place decides the
/// rounding.
proof fn lemma_round_by_next_digit(head: nat, d: nat, rest: nat, k: nat)
    requires
        d <= 9,
        rest < pow10(k),
    ensures
        round_div((head * pow10(k + 1) + d * pow10(k) + rest) as int, pow10(k + 1) as int) == head
            + (if d >= 5 {
            1int
        } else {
            0
        }),
{
    let p = pow10(k) as int;
    lemma_pow10_positive(k);
    assert(pow10((k + 1) as nat) == 10 * pow10(k));
    let tail = (d * p + rest) as int;
    lemma_round_div_shift(tail, head as int, 10 * p);
    assert(round_div(tail, 10 * p) == (if d >= 5 {
        1int
    } else {
        0
    })) by {
        assert(d * p >= 5 * p || d * p <= 4 * p) by (nonlinear_arith)
            requires
                d >= 5 || d <= 4,
                p > 0,
        ;
        assert(d * p <= 9 * p) by (nonlinear_arith)
            requires
                d <= 9,
                p > 0,
        ;
        assert(d * p >= 0) by (nonlinear_arith)
            requires
                d >= 0,
                p > 0,
        ;
        if d >= 5 {
            assert(d * p >= 5 * p) by (nonlinear_arith)
                requires
                    d >= 5,
                    p > 0,
            ;
            vstd::arithmetic::div_mod::lemma_fundamental_div_mod_converse(
                2 * tail + 10 * p,
                20 * p,
                1,
                2 * tail - 10 * p,
            );
        } else {
            assert(d * p <= 4 * p) by (nonlinear_arith)
                requires
                    d <= 4,
                    p > 0,
            ;
            vstd::arithmetic::div_mod::lemma_fundamental_div_mod_converse(
                2 * tail + 10 * p,
                20 * p,
                0,
                2 * tail + 10 * p,
            );
        }
    }
}

/// The position of the first point in `v[from..]`, or the length.
fn find_point(v: &Vec<char>, from: usize) -> (at: usize)
    requires
        from <= v@.len(),
    ensures
        from <= at <= v@.len(),
        at - from == point_at(v@.skip(from as int)),
    decreases v@.len() - from,
{
    assert(v@.skip(from as int).len() == v@.len() - from);
    if from == v.len() || v[from] == '.' {
        from
    } else {
        assert(v@.skip(from as int).drop_first() =~= v@.skip(from + 1));
        find_point(v, from + 1)
    }
}

/// Whether a character is a decimal digit.
pub fn digit_test(c: char) -> (r: bool)
    ensures
        r == is_digit(c),
{
    '0' <= c && c <= '9'
}

/// Whether `v[from..to]` holds digits only.
fn digits_between(v: &Vec<char>, from: usize, to: usize) -> (r: bool)
    requires
        from <= to <= v@.len(),
    ensures
        r == all_digits(v@.subrange(from as int, to as int)),
{
    let mut i: usize = from;
    while i < to
        invariant
            from <= i <= to <= v@.len(),
            forall|k: int| from <= k < i ==> is_digit(#[trigger] v@[k]),
        decreases to - i,
    {
        if !digit_test(v[i]) {
            assert(v@.subrange(from as int, to as int)[i - from] == v@[i as int]);
            return false;
        }
        i += 1;
    }
    true
}

/// The value of the digits `v[from..to]`, continued from `start`; `None` where it
/// passes the limit.
fn read_digits(v: &Vec<char>, from: usize, to: usize, start: i128, Ghost(before): Ghost<Seq<char>>) -> (r:
    Option<i128>)
    requires
        from <= to <= v@.len(),
        all_digits(v@.subrange(from as int, to as int)),
        0 <= start <= LIMIT,
        start == digits_value(before),
    ensures
        match r {
            Some(n) => n == digits_value(before + v@.subrange(from as int, to as int)) && 0 <= n
                <= LIMIT,
            None => digits_value(before + v@.subrange(from as int, to as int)) > LIMIT,
        },
{
    let mut n: i128 = start;
    let mut i: usize = from;
    assert(before + v@.subrange(from as int, from as int) =~= before);
    while i < to
        invariant
            from <= i <= to <= v@.len(),
            all_digits(v@.subrange(from as int, to as int)),
            0 <= n <= LIMIT,
            n == digits_value(before + v@.subrange(from as int, i as int)),
        decreases to - i,
    {
        let c: char = v[i];
        assert(v@.subrange(from as int, to as int)[i - from] == c);
        let d: i128 = (c as u32 - 48) as i128;
        proof {
            let part = v@.subrange(from as int, i as int);
            lemma_digits_push(before + part, c);
            assert(before + v@.subrange(from as int, i + 1) =~= (before + part).push(c));
        }
        n = 10 * n + d;
        i += 1;
        if n > LIMIT {
            proof {
                let head = before + v@.subrange(from as int, i as int);
                let tail = v@.subrange(i as int, to as int);
                assert(all_digits(tail)) by {
                    assert forall|k: int| 0 <= k < tail.len() implies is_digit(#[trigger] tail[k]) by {
                        assert(v@.subrange(from as int, to as int)[k + i - from] == tail[k]);
                    }
                }
                assert(before + v@.subrange(from as int, to as int) =~= head + tail);
                lemma_digits_extend(head, tail);
                lemma_pow10_positive(tail.len());
                let a = digits_value(head);
                let p = pow10(tail.len());
                assert(a * p >= a) by (nonlinear_arith)
                    requires
                        p >= 1,
                        a >= 0,
                ;
            }
            return None;
        }
    }
    Some(n)
}

/// The steps of the numeral `v[from..]`, whose point is at `point`.
fn read_steps(v: &Vec<char>, from: usize, point: usize) -> (r: Option<i128>)
    requires
        from <= point <= v@.len(),
        point - from == point_at(v@.skip(from as int)),
        is_numeral(v@.skip(from as int)),
    ensures
        match r {
            Some(n) => n == numeral_steps(v@.skip(from as int)) && 0 <= n <= LIMIT,
            None => numeral_steps(v@.skip(from as int)) > LIMIT,
        },
{
    let ghost s = v@.skip(from as int);
    let ghost whole = whole_digits(s);
    let ghost fraction = fraction_digits(s);
    let size: usize = v.len();
    let first: usize = if point < size {
        point + 1
    } else {
        size
    };
    let places: usize = size - first;
    let kept: usize = if places < 12 {
        places
    } else {
        12
    };
    proof {
        assert(whole =~= v@.subrange(from as int, point as int));
        assert(fraction =~= v@.subrange(first as int, size as int));
        assert(Seq::<char>::empty() + whole =~= whole);
        lemma_pow10_28();
    }
    let ghost head = v@.subrange(first as int, first + kept);
    let ghost tail = v@.subrange(first + kept, size as int);
    proof {
        assert(fraction =~= head + tail);
        assert(all_digits(head)) by {
            assert forall|k: int| 0 <= k < head.len() implies is_digit(#[trigger] head[k]) by {
                assert(fraction[k] == head[k]);
            }
        }
        assert(all_digits(tail)) by {
            assert forall|k: int| 0 <= k < tail.len() implies is_digit(#[trigger] tail[k]) by {
                assert(fraction[k + kept] == tail[k]);
            }
        }
        lemma_digits_extend(whole + head, tail);
        lemma_digits_extend(whole, head);
        assert(whole + fraction =~= (whole + head) + tail);
    }
    let w: i128 = match read_digits(v, from, point, 0, Ghost(Seq::<char>::empty())) {
        Some(n) => n,
        None => {
            proof {
                lemma_steps_reach(s, digits_value(whole), head, tail);
            }
            return None;
        },
    };
    let n: i128 = match read_digits(v, first, first + kept, w, Ghost(whole)) {
        Some(n) => n,
        None => {
            proof {
                lemma_steps_reach(s, digits_value(whole + head), head, tail);
            }
            return None;
        },
    };
    if places <= 12 {
        let unit: i128 = ten_to((12 - places) as u32) as i128;
        proof {
            assert(tail =~= Seq::<char>::empty());
            assert(whole + fraction =~= whole + head);
            vstd::arithmetic::div_mod::lemma_fundamental_div_mod(LIMIT as int, unit as int);
        }
        let most: i128 = LIMIT / unit;
        if n > most {
            proof {
                assert(n * unit > LIMIT) by (nonlinear_arith)
                    requires
                        n >= most + 1,
                        unit > 0,
                        unit * most > LIMIT - unit,
                ;
            }
            return None;
        }
        proof {
            assert(n * unit <= LIMIT) by (nonlinear_arith)
                requires
                    n <= most,
                    unit > 0,
                    unit * most <= LIMIT,
            ;
            assert(n * unit >= 0) by (nonlinear_arith)
                requires
                    n >= 0,
                    unit > 0,
            ;
        }
        return Some(n * unit);
    }
    let next: char = v[first + 12];
    proof {
        assert(tail[0] == next);
        let rest = tail.drop_first();
        let k = (places - 13) as nat;
        assert(all_digits(rest)) by {
            assert forall|j: int| 0 <= j < rest.len() implies is_digit(#[trigger] rest[j]) by {
                assert(tail[j + 1] == rest[j]);
            }
        }
        let one = seq![next];
        assert(all_digits(one));
        assert(tail =~= one + rest);
        lemma_digits_extend(one, rest);
        assert(one =~= Seq::<char>::empty().push(next));
        lemma_digits_push(Seq::<char>::empty(), next);
        let d = (next as int - '0' as int) as nat;
        assert(digits_value(one) == d);
        assert(rest.len() == k);
        lemma_round_by_next_digit(digits_value(whole + head), d, digits_value(rest), k);
        assert(numeral_steps(s) == round_div(
            digits_value(whole + fraction) as int,
            pow10((places - 12) as nat) as int,
        ));
    }
    let up: i128 = if next >= '5' {
        1
    } else {
        0
    };
    if n + up > LIMIT {
        None
    } else {
        Some(n + up)
    }
}

/// A numeral whose leading digits pass the limit passes it.
proof fn lemma_steps_reach(s: Seq<char>, lead: nat, head: Seq<char>, tail: Seq<char>)
    requires
        is_numeral(s),
        fraction_digits(s) == head + tail,
        all_digits(head),
        all_digits(tail),
        head.len() <= 12,
        head.len() < 12 ==> tail.len() == 0,
        lead == digits_value(whole_digits(s)) || lead == digits_value(whole_digits(s) + head),
        lead > LIMIT,
    ensures
        numeral_steps(s) > LIMIT,
{
    let whole = whole_digits(s);
    let f = fraction_digits(s).len();
    lemma_digits_extend(whole, head);
    lemma_pow10_positive(head.len());
    let w = digits_value(whole);
    let p = pow10(head.len());
    assert(w * p >= w) by (nonlinear_arith)
        requires
            p >= 1,
            w >= 0,
    ;
    let n = digits_value(whole + head);
    assert(n > LIMIT);
    assert(whole + fraction_digits(s) =~= (whole + head) + tail);
    lemma_digits_extend(whole + head, tail);
    if f <= 12 {
        assert(tail.len() == 0);
        assert(tail =~= Seq::<char>::empty());
        assert(pow10(0) == 1);
        let u = pow10((12 - f) as nat);
        lemma_pow10_positive((12 - f) as nat);
        assert(whole + fraction_digits(s) =~= whole + head);
        assert(n * u >= n) by (nonlinear_arith)
            requires
                u >= 1,
                n >= 0,
        ;
    } else {
        let d = pow10((f - 12) as nat) as int;
        lemma_pow10_positive((f - 12) as nat);
        assert(tail.len() == f - 12);
        lemma_round_div_monotone(n * d, digits_value(whole + fraction_digits(s)) as int, d);
        crate::fixed::lemma_round_div_exact(n as int, d);
    }
}

/// A row of zeros.
pub open spec fn zeros(k: nat) -> Seq<char> {
    Seq::new(k, |i: int| '0')
}

/// Zeros before a row of digits change nothing, and zeros behind it multiply it.
proof fn lemma_zeros(d: Seq<char>, k: nat)
    requires
        all_digits(d),
    ensures
        all_digits(zeros(k)),
        all_digits(zeros(k) + d),
        all_digits(d + zeros(k)),
        digits_value(zeros(k)) == 0,
        digits_value(zeros(k) + d) == digits_value(d),
        digits_value(d + zeros(k)) == digits_value(d) * pow10(k),
    decreases k,
{
    if k > 0 {
        lemma_zeros(d, (k - 1) as nat);
        assert(zeros(k).drop_last() =~= zeros((k - 1) as nat));
    }
    assert forall|i: int| 0 <= i < (zeros(k) + d).len() implies is_digit(
        #[trigger] (zeros(k) + d)[i],
    ) by {
        if i >= k {
            assert(is_digit(d[i - k]));
        }
    }
    assert forall|i: int| 0 <= i < (d + zeros(k)).len() implies is_digit(
        #[trigger] (d + zeros(k))[i],
    ) by {
        if i < d.len() {
            assert(is_digit(d[i]));
        }
    }
    lemma_digits_extend(zeros(k), d);
    lemma_digits_extend(d, zeros(k));
    assert(0 * pow10(d.len()) == 0) by (nonlinear_arith);
}

/// A row of digits has no point.
pub proof fn lemma_no_point(d: Seq<char>)
    requires
        all_digits(d),
    ensures
        point_at(d) == d.len(),
        whole_digits(d) == d,
        fraction_digits(d) == Seq::<char>::empty(),
    decreases d.len(),
{
    if d.len() > 0 {
        assert(is_digit(d[0]));
        assert forall|i: int| 0 <= i < d.drop_first().len() implies is_digit(
            #[trigger] d.drop_first()[i],
        ) by {
            assert(is_digit(d[i + 1]));
        }
        lemma_no_point(d.drop_first());
    }
    assert(d.take(d.len() as int) =~= d);
}

/// The parts of two rows of digits around a point.
pub proof fn lemma_point_between(a: Seq<char>, b: Seq<char>)
    requires
        all_digits(a),
    ensures
        point_at(a + seq!['.'] + b) == a.len(),
        whole_digits(a + seq!['.'] + b) == a,
        fraction_digits(a + seq!['.'] + b) == b,
    decreases a.len(),
{
    let w = a + seq!['.'] + b;
    if a.len() > 0 {
        assert(is_digit(a[0]));
        let rest = a.drop_first();
        assert forall|i: int| 0 <= i < rest.len() implies is_digit(#[trigger] rest[i]) by {
            assert(is_digit(a[i + 1]));
        }
        lemma_point_between(rest, b);
        assert(w.drop_first() =~= rest + seq!['.'] + b);
        assert(w[0] == a[0]);
    } else {
        assert(w[0] == '.');
    }
    assert(w.take(a.len() as int) =~= a);
    assert(w.skip(a.len() as int + 1) =~= b);
}

/// A numeral whose point is moved `e` places to the right stands for `10^e` times
/// its number. The digits are `d`, of which `whole` stand before the point.
proof fn lemma_moved(b: Seq<char>, w: Seq<char>, d: Seq<char>, whole: int, e: int)
    requires
        is_numeral(b),
        d == whole_digits(b) + fraction_digits(b),
        whole == whole_digits(b).len(),
        ({
            let q = whole + e;
            if q <= 0 {
                w == seq!['.'] + zeros((-q) as nat) + d
            } else if q >= d.len() {
                w == d + zeros((q - d.len()) as nat)
            } else {
                w == d.take(q) + seq!['.'] + d.skip(q)
            }
        }),
    ensures
        is_numeral(w),
        numeral_steps(w) == steps_with(b, e),
{
    let q = whole + e;
    let f = fraction_digits(b).len() as int;
    assert(all_digits(d)) by {
        assert forall|i: int| 0 <= i < d.len() implies is_digit(#[trigger] d[i]) by {
            if i < whole {
                assert(is_digit(whole_digits(b)[i]));
            } else {
                assert(is_digit(fraction_digits(b)[i - whole]));
            }
        }
    }
    assert(all_digits(Seq::<char>::empty()));
    if q <= 0 {
        let k = (-q) as nat;
        lemma_zeros(d, k);
        assert(w =~= Seq::<char>::empty() + seq!['.'] + (zeros(k) + d));
        lemma_point_between(Seq::<char>::empty(), zeros(k) + d);
        assert(Seq::<char>::empty() + (zeros(k) + d) =~= zeros(k) + d);
        assert(k + d.len() == f - e);
    } else if q >= d.len() {
        let k = (q - d.len()) as nat;
        lemma_zeros(d, k);
        lemma_no_point(w);
        assert(w + Seq::<char>::empty() =~= w);
        assert(k == e - f);
        lemma_pow10_add(k, 12);
        let n = digits_value(d);
        assert(n * pow10(k) * pow10(12) == n * (pow10(k) * pow10(12))) by (nonlinear_arith);
        assert((12 - (f - e)) as nat == k + 12);
    } else {
        assert forall|i: int| 0 <= i < d.take(q).len() implies is_digit(#[trigger] d.take(q)[i]) by {
            assert(is_digit(d[i]));
        }
        assert forall|i: int| 0 <= i < d.skip(q).len() implies is_digit(#[trigger] d.skip(q)[i]) by {
            assert(is_digit(d[i + q]));
        }
        lemma_point_between(d.take(q), d.skip(q));
        assert(d.take(q) + d.skip(q) =~= d);
    }
}

/// Far exponents: a number that is not zero passes the limit, or vanishes.
proof fn lemma_far(b: Seq<char>, e: int)
    requires
        is_numeral(b),
    ensures
        ({
            let d = whole_digits(b) + fraction_digits(b);
            let places = fraction_digits(b).len() - e;
            &&& digits_value(d) == 0 ==> steps_with(b, e) == 0
            &&& digits_value(d) > 0 && places <= -13 ==> steps_with(b, e) > LIMIT
            &&& places >= d.len() + 13 ==> steps_with(b, e) == 0
        }),
{
    let d = whole_digits(b) + fraction_digits(b);
    let n = digits_value(d);
    let places = fraction_digits(b).len() - e;
    assert(all_digits(d)) by {
        assert forall|i: int| 0 <= i < d.len() implies is_digit(#[trigger] d[i]) by {
            let whole = whole_digits(b).len();
            if i < whole {
                assert(is_digit(whole_digits(b)[i]));
            } else {
                assert(is_digit(fraction_digits(b)[i - whole]));
            }
        }
    }
    lemma_digits_extend(Seq::<char>::empty(), d);
    assert(Seq::<char>::empty() + d =~= d);
    lemma_pow10_28();
    if places <= 12 {
        let p = pow10((12 - places) as nat);
        lemma_pow10_positive((12 - places) as nat);
        if n == 0 {
            assert(0 * p == 0) by (nonlinear_arith);
        } else if places <= -13 {
            lemma_pow10_monotone(25, (12 - places) as nat);
            lemma_pow10_add(12, 13);
            lemma_pow10_add(12, 1);
            assert(pow10(1) == 10) by {
                reveal_with_fuel(pow10, 2);
            }
            assert(pow10(25) > LIMIT);
            assert(n * p >= p) by (nonlinear_arith)
                requires
                    n >= 1,
                    p >= 0,
            ;
        }
    } else {
        let p = pow10((places - 12) as nat) as int;
        lemma_pow10_positive((places - 12) as nat);
        if n == 0 {
            crate::fixed::lemma_round_div_exact(0, p);
        } else if places >= d.len() + 13 {
            lemma_pow10_monotone((d.len() + 1) as nat, (places - 12) as nat);
            assert(pow10((d.len() + 1) as nat) == 10 * pow10(d.len()));
            assert(10 * n < p);
            assert(round_div(n as int, p) == 0) by {
                vstd::arithmetic::div_mod::lemma_fundamental_div_mod_converse(
                    2 * n + p,
                    2 * p,
                    0,
                    2 * n + p,
                );
            }
        }
    }
}

/// The position of the first `e` or `E` in `v[from..]`, or the length.
fn find_mark(v: &Vec<char>, from: usize) -> (at: usize)
    requires
        from <= v@.len(),
    ensures
        from <= at <= v@.len(),
        at - from == mark_at(v@.skip(from as int)),
    decreases v@.len() - from,
{
    assert(v@.skip(from as int).len() == v@.len() - from);
    if from == v.len() || v[from] == 'e' || v[from] == 'E' {
        from
    } else {
        assert(v@.skip(from as int).drop_first() =~= v@.skip(from + 1));
        find_mark(v, from + 1)
    }
}

/// An exponent this far from zero is as good as any farther one: `2^70`.
pub const FAR: i128 = 1_180_591_620_717_411_303_424;

/// The exponent `v[from..]`, none where it is no number. One beyond [`FAR`] comes back
/// as some other beyond it, with the same sign.
fn read_exponent(v: &Vec<char>, from: usize) -> (r: Option<i128>)
    requires
        from <= v@.len(),
    ensures
        r is Some <==> signed_row(v@.skip(from as int)) is Some,
        r is Some ==> {
            let e = signed_row(v@.skip(from as int))->0;
            &&& -FAR <= e <= FAR ==> r->0 == e
            &&& e > FAR ==> r->0 > FAR
            &&& e < -FAR ==> r->0 < -FAR
            &&& -20 * FAR <= r->0 <= 20 * FAR
        },
{
    let ghost t = v@.skip(from as int);
    let mut at: usize = from;
    let mut negative: bool = false;
    if from < v.len() && (v[from] == '-' || v[from] == '+') {
        negative = v[from] == '-';
        at = from + 1;
    }
    let size: usize = v.len();
    assert(t.len() > 0 ==> t[0] == v@[from as int]);
    assert(unsigned_part(t) =~= v@.subrange(at as int, size as int));
    if at == size || !digits_between(v, at, size) {
        return None;
    }
    let ghost row = v@.subrange(at as int, size as int);
    let mut n: i128 = 0;
    let mut i: usize = at;
    assert(row.take(0) =~= Seq::<char>::empty());
    while i < size
        invariant
            at <= i <= size == v@.len(),
            row == v@.subrange(at as int, size as int),
            all_digits(row),
            0 <= n <= 11 * FAR,
            n == digits_value(row.take(i - at)) || (n > FAR && digits_value(row.take(i - at)) > FAR),
        decreases size - i,
    {
        let c: char = v[i];
        assert(row[i - at] == c);
        assert(is_digit(row[i - at]));
        proof {
            let next = row.take(i - at + 1);
            assert(next =~= row.take(i - at).push(c));
            lemma_digits_push(row.take(i - at), c);
        }
        if n <= FAR {
            n = 10 * n + (c as u32 - 48) as i128;
        }
        i += 1;
    }
    assert(row.take(row.len() as int) =~= row);
    Some(
        if negative {
            -n
        } else {
            n
        },
    )
}

/// Whether any of the digits `v[from..to]` is not zero.
fn any_nonzero(v: &Vec<char>) -> (r: bool)
    requires
        all_digits(v@),
    ensures
        r == (digits_value(v@) > 0),
{
    let mut i: usize = 0;
    assert(v@.take(0) =~= Seq::<char>::empty());
    while i < v.len()
        invariant
            i <= v@.len(),
            all_digits(v@),
            digits_value(v@.take(i as int)) == 0,
        decreases v@.len() - i,
    {
        assert(is_digit(v@[i as int]));
        proof {
            let next = v@.take(i + 1);
            assert(next =~= v@.take(i as int).push(v@[i as int]));
            lemma_digits_push(v@.take(i as int), v@[i as int]);
        }
        if v[i] != '0' {
            proof {
                lemma_digits_grow(v@, i + 1);
            }
            return true;
        }
        i += 1;
    }
    assert(v@.take(v@.len() as int) =~= v@);
    false
}

fn push_zeros(out: &mut Vec<char>, k: usize)
    ensures
        final(out)@ == old(out)@ + zeros(k as nat),
{
    let mut i: usize = 0;
    assert(out@ + zeros(0) =~= out@);
    while i < k
        invariant
            i <= k,
            out@ == old(out)@ + zeros(i as nat),
        decreases k - i,
    {
        out.push('0');
        assert(out@ =~= old(out)@ + zeros(i as nat + 1));
        i += 1;
    }
}

fn push_part(out: &mut Vec<char>, v: &Vec<char>, from: usize, to: usize)
    requires
        from <= to <= v@.len(),
    ensures
        final(out)@ == old(out)@ + v@.subrange(from as int, to as int),
{
    let mut i: usize = from;
    assert(out@ + v@.subrange(from as int, from as int) =~= out@);
    while i < to
        invariant
            from <= i <= to <= v@.len(),
            out@ == old(out)@ + v@.subrange(from as int, i as int),
        decreases to - i,
    {
        out.push(v[i]);
        assert(out@ =~= old(out)@ + v@.subrange(from as int, i + 1));
        i += 1;
    }
}

/// The steps of the numeral `b`, whose point is at `point`, times `10^e`. An exponent
/// beyond [`FAR`] stands for any other beyond it.
fn read_scaled(b: &Vec<char>, point: usize, e: i128, Ghost(exact): Ghost<int>) -> (r: Option<i128>)
    requires
        is_numeral(b@),
        point == point_at(b@),
        point <= b@.len(),
        -FAR <= exact <= FAR ==> e == exact,
        exact > FAR ==> e > FAR,
        exact < -FAR ==> e < -FAR,
        -20 * FAR <= e <= 20 * FAR,
    ensures
        match r {
            Some(n) => n == steps_with(b@, exact) && 0 <= n <= LIMIT,
            None => steps_with(b@, exact) > LIMIT,
        },
{
    let size: usize = b.len();
    let first: usize = if point < size {
        point + 1
    } else {
        size
    };
    let mut d: Vec<char> = Vec::new();
    push_part(&mut d, b, 0, point);
    push_part(&mut d, b, first, size);
    proof {
        assert(whole_digits(b@) =~= b@.subrange(0, point as int));
        assert(fraction_digits(b@) =~= b@.subrange(first as int, size as int));
        assert(d@ =~= whole_digits(b@) + fraction_digits(b@));
        assert forall|i: int| 0 <= i < d@.len() implies is_digit(#[trigger] d@[i]) by {
            if i < point {
                assert(is_digit(whole_digits(b@)[i]));
            } else {
                assert(is_digit(fraction_digits(b@)[i - point]));
            }
        }
        lemma_far(b@, exact);
    }
    let places: i128 = (size - first) as i128 - e;
    if !any_nonzero(&d) || places >= d.len() as i128 + 13 {
        return Some(0);
    }
    if places <= -13 {
        return None;
    }
    assert(e == exact);
    let q: i128 = point as i128 + e;
    let mut w: Vec<char> = Vec::new();
    if q <= 0 {
        w.push('.');
        push_zeros(&mut w, (-q) as usize);
        push_part(&mut w, &d, 0, d.len());
        assert(d@.subrange(0, d@.len() as int) =~= d@);
        assert(w@ =~= seq!['.'] + zeros((-q) as nat) + d@);
    } else if q >= d.len() as i128 {
        push_part(&mut w, &d, 0, d.len());
        push_zeros(&mut w, (q - d.len() as i128) as usize);
        assert(d@.subrange(0, d@.len() as int) =~= d@);
        assert(w@ =~= d@ + zeros((q - d@.len()) as nat));
    } else {
        let at: usize = q as usize;
        push_part(&mut w, &d, 0, at);
        w.push('.');
        push_part(&mut w, &d, at, d.len());
        assert(w@ =~= d@.take(q as int) + seq!['.'] + d@.skip(q as int));
    }
    proof {
        lemma_moved(b@, w@, d@, point as int, e as int);
        assert(w@.skip(0) =~= w@);
    }
    let dot: usize = find_point(&w, 0);
    read_steps(&w, 0, dot)
}

/// Reads a number: a sign or none, digits with at most one point among them, and an
/// exponent or none. See [`fixed_value`].
pub fn parse_fixed(s: &str) -> (r: Option<i128>)
    ensures
        r == fixed_value(s@),
        r is Some ==> bounded(r->0 as int),
{
    let v: Vec<char> = chars_of(s);
    let mut from: usize = 0;
    let mut negative: bool = false;
    if v.len() > 0 && (v[0] == '-' || v[0] == '+') {
        from = 1;
        negative = v[0] == '-';
    }
    let ghost u = unsigned_part(s@);
    assert(v@.skip(from as int) =~= u);
    let mark: usize = find_mark(&v, from);
    let mut b: Vec<char> = Vec::new();
    push_part(&mut b, &v, from, mark);
    assert(b@ =~= body_of(u));
    assert(b@.skip(0) =~= b@);
    let point: usize = find_point(&b, 0);
    let size: usize = b.len();
    let first: usize = if point < size {
        point + 1
    } else {
        size
    };
    proof {
        assert(whole_digits(b@) =~= b@.subrange(0, point as int));
        assert(fraction_digits(b@) =~= b@.subrange(first as int, size as int));
    }
    if point + (size - first) == 0 || !digits_between(&b, 0, point) || !digits_between(
        &b,
        first,
        size,
    ) {
        return None;
    }
    let mut e: i128 = 0;
    if mark < v.len() {
        proof {
            assert(v@.skip(mark + 1) =~= u.skip(mark_at(u) as int + 1));
        }
        match read_exponent(&v, mark + 1) {
            Some(n) => e = n,
            None => return None,
        }
    }
    let n: i128 = match read_scaled(&b, point, e, Ghost(exponent_of(u)->0)) {
        Some(n) => n,
        None => LIMIT,
    };
    Some(
        if negative {
            -n
        } else {
            n
        },
    )
}

/// A row of digits that is no larger than `most`.
pub open spec fn row_value(d: Seq<char>, most: int) -> Option<u64> {
    if d.len() > 0 && all_digits(d) && digits_value(d) <= most {
        Some(digits_value(d) as u64)
    } else {
        None
    }
}

/// The whole number that a text stands for: digits, perhaps behind a plus sign, and
/// no more than `most`.
pub open spec fn whole_value(s: Seq<char>, most: int) -> Option<u64> {
    if s.len() > 0 && s[0] == '+' {
        row_value(s.drop_first(), most)
    } else {
        row_value(s, most)
    }
}

/// The integer that a text stands for: digits, perhaps behind a sign.
pub open spec fn integer_value(s: Seq<char>) -> Option<i64> {
    if s.len() > 0 && s[0] == '-' {
        match row_value(s.drop_first(), 0x8000_0000_0000_0000) {
            Some(n) => Some((-(n as int)) as i64),
            None => None,
        }
    } else {
        match whole_value(s, 0x7fff_ffff_ffff_ffff) {
            Some(n) => Some(n as i64),
            None => None,
        }
    }
}

/// More digits never make a number smaller.
proof fn lemma_digits_grow(d: Seq<char>, k: int)
    requires
        0 <= k <= d.len(),
        all_digits(d),
    ensures
        digits_value(d.take(k)) <= digits_value(d),
    decreases d.len() - k,
{
    if k < d.len() {
        lemma_digits_grow(d, k + 1);
        assert(d.take(k + 1).drop_last() =~= d.take(k));
        assert(is_digit(d[k]));
        assert(d.take(k + 1).last() == d[k]);
    } else {
        assert(d.take(k) =~= d);
    }
}

fn parse_row(v: &Vec<char>, from: usize, most: u64) -> (r: Option<u64>)
    requires
        from <= v@.len(),
    ensures
        r == row_value(v@.skip(from as int), most as int),
{
    let ghost d = v@.skip(from as int);
    if from == v.len() {
        return None;
    }
    let mut n: u128 = 0;
    let mut i: usize = from;
    assert(d.take(0) =~= Seq::empty());
    while i < v.len()
        invariant
            from <= i <= v@.len(),
            d == v@.skip(from as int),
            all_digits(d.take(i - from)),
            n == digits_value(d.take(i - from)),
            n <= most,
        decreases v@.len() - i,
    {
        let c: char = v[i];
        assert(d[i - from] == c);
        if !digit_test(c) {
            assert(!all_digits(d));
            return None;
        }
        let ghost next = d.take(i - from + 1);
        assert(next.drop_last() =~= d.take(i - from));
        assert(next.last() == c);
        n = 10 * n + (c as u128 - '0' as u128);
        assert(n == digits_value(next));
        if n > most as u128 {
            proof {
                if all_digits(d) {
                    lemma_digits_grow(d, i - from + 1);
                }
            }
            return None;
        }
        assert forall|k: int| 0 <= k < next.len() implies is_digit(#[trigger] next[k]) by {
            if k < i - from {
                assert(next[k] == d.take(i - from)[k]);
            }
        }
        i += 1;
    }
    assert(d.take(d.len() as int) =~= d);
    Some(n as u64)
}

/// Reads a whole number that is no larger than `most`.
pub fn parse_whole(s: &str, most: u64) -> (r: Option<u64>)
    ensures
        r == whole_value(s@, most as int),
        r is Some ==> r->0 <= most,
{
    let v: Vec<char> = chars_of(s);
    if v.len() > 0 && v[0] == '+' {
        assert(v@.skip(1) =~= s@.drop_first());
        parse_row(&v, 1, most)
    } else {
        assert(v@.skip(0) =~= s@);
        parse_row(&v, 0, most)
    }
}

/// Reads an integer.
pub fn parse_integer(s: &str) -> (r: Option<i64>)
    ensures
        r == integer_value(s@),
{
    let v: Vec<char> = chars_of(s);
    if v.len() > 0 && v[0] == '-' {
        assert(v@.skip(1) =~= s@.drop_first());
        match parse_row(&v, 1, 0x8000_0000_0000_0000) {
            Some(n) => Some((-(n as i128)) as i64),
            None => None,
        }
    } else {
        match parse_whole(s, 0x7fff_ffff_ffff_ffff) {
            Some(n) => Some(n as i64),
            None => None,
        }
    }
}

} // verus!
