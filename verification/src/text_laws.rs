//! Writing and reading fit together: theorems about [`crate::text`], [`crate::numeral`] and
//! the decimals of [`crate::money`].
use crate::fixed::{abs_of, min_of, LIMIT};
use crate::money::{is_plain, plain, plain_text};
use crate::numeral::{
    all_digits, body_of, digits_value, exponent_of, fixed_value, fraction_digits, integer_value,
    is_digit, lemma_digits_extend, lemma_digits_push, lemma_no_point, lemma_point_between, mark_at,
    unsigned_part, whole_digits, whole_value,
};
use crate::text::{
    digit_char, fixed_text, half_even, int_text, left_text, lemma_pow10_add, lemma_pow10_positive,
    nat_text, padded_text, pow10, right_text, text_less,
};
use vstd::prelude::*;

verus! {

/// A whole number in digits has at least one of them, and they stand for the number.
pub proof fn law_digits_stand_for_their_number(n: nat)
    ensures
        digits_value(nat_text(n)) == n,
        all_digits(nat_text(n)),
        nat_text(n).len() > 0,
    decreases n,
{
    let d = digit_char((n % 10) as int);
    assert(is_digit(d) && d as int - '0' as int == n % 10);
    if n < 10 {
        let none = Seq::<char>::empty();
        assert(nat_text(n) =~= none.push(d));
        lemma_digits_push(none, d);
        assert(digits_value(none) == 0);
    } else {
        law_digits_stand_for_their_number(n / 10);
        lemma_digits_push(nat_text(n / 10), d);
        lemma_push_digit(nat_text(n / 10), d);
    }
}

proof fn lemma_push_digit(s: Seq<char>, d: char)
    requires
        all_digits(s),
        is_digit(d),
    ensures
        all_digits(s.push(d)),
{
    assert forall|i: int| 0 <= i < s.push(d).len() implies is_digit(#[trigger] s.push(d)[i]) by {
        if i < s.len() {
            assert(is_digit(s[i]));
        }
    }
}

/// A number padded to a width has that many digits, and they stand for its lowest digits.
pub proof fn law_padded_digits_are_the_lowest(n: nat, width: nat)
    ensures
        padded_text(n, width).len() == width,
        all_digits(padded_text(n, width)),
        digits_value(padded_text(n, width)) == n % pow10(width),
    decreases width,
{
    if width > 0 {
        let d = digit_char((n % 10) as int);
        assert(is_digit(d) && d as int - '0' as int == n % 10);
        let k = (width - 1) as nat;
        law_padded_digits_are_the_lowest(n / 10, k);
        lemma_digits_push(padded_text(n / 10, k), d);
        lemma_push_digit(padded_text(n / 10, k), d);
        lemma_pow10_positive(k);
        vstd::arithmetic::div_mod::lemma_mod_breakdown(n as int, 10, pow10(k) as int);
    }
}

/// A whole number that is written is read back, up to the most that is read.
pub proof fn law_whole_numbers_read_back(n: u64, most: int)
    ensures
        n <= most ==> whole_value(nat_text(n as nat), most) == Some(n),
        n > most ==> whole_value(nat_text(n as nat), most) is None,
{
    law_digits_stand_for_their_number(n as nat);
    let t = nat_text(n as nat);
    assert(is_digit(t[0]));
}

/// A signed whole number that is written is read back.
pub proof fn law_integers_read_back(n: i64)
    ensures
        integer_value(int_text(n as int)) == Some(n),
{
    if n < 0 {
        let m = (-n) as nat;
        law_digits_stand_for_their_number(m);
        assert((seq!['-'] + nat_text(m)).drop_first() =~= nat_text(m));
    } else {
        law_digits_stand_for_their_number(n as nat);
        assert(is_digit(nat_text(n as nat)[0]));
    }
}

/// A numeral without a mark has no exponent.
proof fn lemma_no_mark(s: Seq<char>)
    requires
        forall|i: int| 0 <= i < s.len() ==> is_digit(#[trigger] s[i]) || s[i] == '.',
    ensures
        mark_at(s) == s.len(),
        body_of(s) == s,
        exponent_of(s) == Some(0int),
    decreases s.len(),
{
    if s.len() > 0 {
        assert(is_digit(s[0]) || s[0] == '.');
        let rest = s.drop_first();
        assert forall|i: int| 0 <= i < rest.len() implies is_digit(#[trigger] rest[i]) || rest[i]
            == '.' by {
            assert(is_digit(s[i + 1]) || s[i + 1] == '.');
        }
        lemma_no_mark(rest);
    }
    assert(s.take(s.len() as int) =~= s);
}

/// What is read of digits, with a point and further digits where there are any.
pub open spec fn decimal_of(a: Seq<char>, b: Seq<char>) -> Seq<char> {
    if b.len() == 0 {
        a
    } else {
        a + seq!['.'] + b
    }
}

/// A numeral stands for its digits: those before the point count ones, those behind it parts
/// of ones. A minus sign negates it, and no numeral counts more than the range holds.
pub proof fn law_numeral_counts_its_digits(a: Seq<char>, b: Seq<char>)
    requires
        all_digits(a),
        all_digits(b),
        a.len() > 0,
        b.len() <= 12,
    ensures
        ({
            let steps = min_of(
                (digits_value(a) * 1_000_000_000_000 + digits_value(b) * pow10(
                    (12 - b.len()) as nat,
                )) as int,
                LIMIT as int,
            );
            &&& fixed_value(decimal_of(a, b)) == Some(steps as i128)
            &&& fixed_value(seq!['-'] + decimal_of(a, b)) == Some((-steps) as i128)
        }),
{
    let s = decimal_of(a, b);
    assert(is_digit(a[0]));
    assert(s[0] == a[0]);
    assert forall|i: int| 0 <= i < s.len() implies is_digit(#[trigger] s[i]) || s[i] == '.' by {
        if i < a.len() {
            assert(is_digit(a[i]));
        } else if i > a.len() {
            assert(is_digit(b[i - a.len() - 1]));
        }
    }
    lemma_no_mark(s);
    if b.len() == 0 {
        lemma_no_point(a);
        assert(b =~= Seq::<char>::empty());
    } else {
        lemma_point_between(a, b);
    }
    assert(whole_digits(s) == a && fraction_digits(s) == b);
    lemma_digits_extend(a, b);
    let rest = (12 - b.len()) as nat;
    lemma_pow10_add(b.len(), rest);
    assert(pow10(12) == 1_000_000_000_000) by {
        reveal_with_fuel(pow10, 13);
    }
    let x = digits_value(a);
    let y = digits_value(b);
    assert((x * pow10(b.len()) + y) * pow10(rest) == x * (pow10(b.len()) * pow10(rest)) + y * pow10(
        rest,
    )) by (nonlinear_arith);
    assert(x * pow10(12) >= 0 && y * pow10(rest) >= 0) by (nonlinear_arith);
    assert(unsigned_part(s) == s);
    let m = seq!['-'] + s;
    assert(m.drop_first() =~= s);
    assert(unsigned_part(m) == s);
}

/// Rounding half to even is rounding to the nearest: it is off by half a unit at most, and
/// where it is off by half a unit the result is even.
pub proof fn law_half_even_is_nearest(n: nat, d: nat)
    requires
        d > 0,
    ensures
        -(d as int) <= 2 * (half_even(n, d) * d - n) <= d,
        2 * (half_even(n, d) * d - n) == d || 2 * (n - half_even(n, d) * d) == d ==> half_even(
            n,
            d,
        ) % 2 == 0,
{
    vstd::arithmetic::div_mod::lemma_fundamental_div_mod(n as int, d as int);
    let q = n / d;
    assert((q + 1) * d == q * d + d && q * d == d * q) by (nonlinear_arith);
}

/// A number written with some places is read back as the nearest one with as many places.
pub proof fn law_written_numbers_read_back(v: int, decimals: nat)
    requires
        -LIMIT <= v <= LIMIT,
        decimals <= 12,
    ensures
        ({
            let unit = pow10((12 - decimals) as nat) as int;
            let back = fixed_value(fixed_text(v, decimals));
            &&& back is Some
            &&& -unit <= 2 * (back->0 - v) <= unit
            &&& back->0 as int % unit == 0
        }),
        fixed_value(fixed_text(v, 12)) == Some(v as i128),
{
    lemma_written(v, decimals);
    lemma_written(v, 12);
    assert(pow10(0) == 1);
}

proof fn lemma_written(v: int, decimals: nat)
    requires
        -LIMIT <= v <= LIMIT,
        decimals <= 12,
    ensures
        ({
            let unit = pow10((12 - decimals) as nat) as int;
            let back = fixed_value(fixed_text(v, decimals));
            &&& back is Some
            &&& -unit <= 2 * (back->0 - v) <= unit
            &&& back->0 as int % unit == 0
        }),
{
    let unit = pow10((12 - decimals) as nat);
    let p = pow10(decimals);
    lemma_pow10_positive((12 - decimals) as nat);
    lemma_pow10_positive(decimals);
    lemma_pow10_add(decimals, (12 - decimals) as nat);
    assert(pow10(12) == 1_000_000_000_000) by {
        reveal_with_fuel(pow10, 13);
    }
    let n = abs_of(v) as nat;
    let r = half_even(n, unit);
    law_half_even_is_nearest(n, unit);
    let w = nat_text(r / p);
    let f = padded_text(r % p, decimals);
    law_digits_stand_for_their_number(r / p);
    law_padded_digits_are_the_lowest(r % p, decimals);
    vstd::arithmetic::div_mod::lemma_mod_twice(r as int, p as int);
    vstd::arithmetic::div_mod::lemma_fundamental_div_mod(r as int, p as int);
    law_numeral_counts_its_digits(w, f);
    let x = r / p;
    let y = r % p;
    assert(x * 1_000_000_000_000 + y * unit == r * unit) by (nonlinear_arith)
        requires
            p * unit == 1_000_000_000_000,
            r == p * x + y,
    ;
    // The rounded amount is inside the range, which is a whole number of units.
    let most = p * 1_000_000_000_000;
    assert(most * unit == LIMIT) by (nonlinear_arith)
        requires
            most == p * 1_000_000_000_000,
            p * unit == 1_000_000_000_000,
            LIMIT == 1_000_000_000_000 * 1_000_000_000_000,
    ;
    assert(r * unit <= LIMIT) by (nonlinear_arith)
        requires
            2 * (r * unit) <= 2 * n + unit,
            n <= LIMIT,
            most * unit == LIMIT,
            unit > 0,
    ;
    let t = fixed_text(v, decimals);
    let s = decimal_of(w, f);
    if v < 0 {
        assert(t =~= seq!['-'] + s);
    } else {
        assert(t =~= s);
    }
    vstd::arithmetic::div_mod::lemma_mod_multiples_basic(r as int, unit as int);
    vstd::arithmetic::div_mod::lemma_mod_multiples_basic(-(r as int), unit as int);
    assert(-(r as int) * unit == -(r * unit)) by (nonlinear_arith);
}

/// A number has its plain form.
proof fn lemma_plain_exists(m: int, s: nat, v: int)
    requires
        s <= 12,
        m * pow10((12 - s) as nat) == v,
    ensures
        is_plain(plain(v), v),
    decreases s,
{
    if s == 0 || m % 10 != 0 {
        assert(is_plain((m, s), v));
    } else {
        let k = (12 - s) as nat;
        assert(pow10((k + 1) as nat) == 10 * pow10(k));
        assert((m / 10) * pow10((k + 1) as nat) == v) by (nonlinear_arith)
            requires
                m * pow10(k) == v,
                m % 10 == 0,
                pow10((k + 1) as nat) == 10 * pow10(k),
        ;
        assert((k + 1) as nat == (12 - (s - 1)) as nat);
        lemma_plain_exists(m / 10, (s - 1) as nat, v);
    }
}

/// A number written plainly is read back as it is.
pub proof fn law_plain_numbers_read_back(v: int)
    requires
        -LIMIT <= v <= LIMIT,
    ensures
        fixed_value(plain_text(v)) == Some(v as i128),
{
    assert(v * pow10(0) == v) by {
        assert(pow10(0) == 1);
    }
    lemma_plain_exists(v, 12, v);
    let d = plain(v);
    let k = d.1;
    let p = pow10(k);
    let unit = pow10((12 - k) as nat);
    lemma_pow10_positive(k);
    lemma_pow10_positive((12 - k) as nat);
    lemma_pow10_add(k, (12 - k) as nat);
    assert(pow10(12) == 1_000_000_000_000) by {
        reveal_with_fuel(pow10, 13);
    }
    let m = abs_of(d.0) as nat;
    let w = nat_text(m / p);
    let f = padded_text(m % p, k);
    law_digits_stand_for_their_number(m / p);
    law_padded_digits_are_the_lowest(m % p, k);
    vstd::arithmetic::div_mod::lemma_mod_twice(m as int, p as int);
    vstd::arithmetic::div_mod::lemma_fundamental_div_mod(m as int, p as int);
    law_numeral_counts_its_digits(w, f);
    let x = m / p;
    let y = m % p;
    assert(x * 1_000_000_000_000 + y * unit == m * unit) by (nonlinear_arith)
        requires
            p * unit == 1_000_000_000_000,
            m == p * x + y,
    ;
    assert(d.0 * unit == v);
    if d.0 < 0 {
        assert(m * unit == -v) by (nonlinear_arith)
            requires
                m == -d.0,
                d.0 * unit == v,
        ;
        assert(plain_text(v) =~= seq!['-'] + decimal_of(w, f));
    } else {
        assert(plain_text(v) =~= decimal_of(w, f));
    }
}

/// A text padded on the right or on the left keeps its characters and reaches the width; one
/// that is wider stays as it is.
pub proof fn law_padding_keeps_the_text(t: Seq<char>, width: nat)
    ensures
        left_text(t, width).take(t.len() as int) =~= t,
        right_text(t, width).skip(right_text(t, width).len() - t.len()) =~= t,
        t.len() <= width ==> left_text(t, width).len() == width && right_text(t, width).len()
            == width,
        t.len() > width ==> left_text(t, width) == t && right_text(t, width) == t,
        forall|i: int|
            t.len() <= i < left_text(t, width).len() ==> #[trigger] left_text(t, width)[i] == ' ',
{
}

/// Texts are ordered as in a dictionary: by the first character in which they differ, and a
/// beginning comes before what it begins.
pub proof fn law_texts_are_in_dictionary_order(
    head: Seq<char>,
    a: char,
    b: char,
    x: Seq<char>,
    y: Seq<char>,
)
    requires
        a != b,
    ensures
        text_less(head.push(a) + x, head.push(b) + y) <==> (a as int) < (b as int),
        text_less(head, head.push(a) + x),
        !text_less(head.push(a) + x, head),
        !text_less(head, head),
    decreases head.len(),
{
    let l = head.push(a) + x;
    let r = head.push(b) + y;
    if head.len() > 0 {
        let rest = head.drop_first();
        law_texts_are_in_dictionary_order(rest, a, b, x, y);
        assert(l.drop_first() =~= rest.push(a) + x);
        assert(r.drop_first() =~= rest.push(b) + y);
        assert(l[0] == head[0] && r[0] == head[0]);
    } else {
        assert(l[0] == a && r[0] == b);
    }
}

/// The exponent of a row of digits is what follows its mark.
proof fn lemma_mark_between(a: Seq<char>, t: Seq<char>)
    requires
        all_digits(a),
    ensures
        mark_at(a + seq!['e'] + t) == a.len(),
    decreases a.len(),
{
    let w = a + seq!['e'] + t;
    if a.len() > 0 {
        assert(is_digit(a[0]));
        let rest = a.drop_first();
        assert forall|i: int| 0 <= i < rest.len() implies is_digit(#[trigger] rest[i]) by {
            assert(is_digit(a[i + 1]));
        }
        lemma_mark_between(rest, t);
        assert(w.drop_first() =~= rest + seq!['e'] + t);
        assert(w[0] == a[0]);
    } else {
        assert(w[0] == 'e');
    }
}

/// An exponent moves the point: to the right where it is positive, so that the number is
/// multiplied by that power of ten, and to the left where it is negative, so that it is divided,
/// to half a step.
pub proof fn law_exponent_moves_the_point(a: Seq<char>, k: nat)
    requires
        all_digits(a),
        a.len() > 0,
    ensures
        fixed_value(a + seq!['e'] + nat_text(k)) == Some(
            min_of((digits_value(a) * pow10((12 + k) as nat)) as int, LIMIT as int) as i128,
        ),
        k <= 12 ==> fixed_value(a + seq!['e'] + (seq!['-'] + nat_text(k))) == Some(
            min_of((digits_value(a) * pow10((12 - k) as nat)) as int, LIMIT as int) as i128,
        ),
        k > 12 ==> ({
            let v = fixed_value(a + seq!['e'] + (seq!['-'] + nat_text(k)));
            let d = pow10((k - 12) as nat) as int;
            &&& v is Some
            &&& v->0 < LIMIT ==> -d <= 2 * (v->0 * d - digits_value(a)) <= d
        }),
{
    law_digits_stand_for_their_number(k);
    let t = nat_text(k);
    let m = seq!['-'] + t;
    assert(is_digit(t[0]));
    assert(is_digit(a[0]));
    let p = a + seq!['e'] + t;
    let q = a + seq!['e'] + m;
    lemma_mark_between(a, t);
    lemma_mark_between(a, m);
    assert(p[0] == a[0] && q[0] == a[0]);
    assert(p.skip(a.len() as int + 1) =~= t);
    assert(q.skip(a.len() as int + 1) =~= m);
    assert(m.drop_first() =~= t);
    assert(body_of(p) =~= a && body_of(q) =~= a);
    lemma_no_point(a);
    assert(a + Seq::<char>::empty() =~= a);
    assert(unsigned_part(p) == p && unsigned_part(q) == q);
    assert(exponent_of(p) == Some(k as int));
    assert(exponent_of(q) == Some(-(k as int)));
    let n = digits_value(a);
    lemma_pow10_positive((12 + k) as nat);
    assert(n * pow10((12 + k) as nat) >= 0) by (nonlinear_arith);
    if k > 12 {
        let d = pow10((k - 12) as nat) as int;
        lemma_pow10_positive((k - 12) as nat);
        crate::fixed::lemma_round_div_error(n as int, d);
        crate::fixed::lemma_round_div_exact(0, d);
        crate::fixed::lemma_round_div_monotone(0, n as int, d);
    } else {
        assert(n * pow10((12 - k) as nat) >= 0) by (nonlinear_arith);
    }
}

} // verus!
