//! Text: decimal numerals, search, and the conversions between strings and
//! sequences of characters that the rest of the library builds on.
use crate::fixed::{abs_of, ONE};
use vstd::prelude::*;

verus! {

/// `String::push` appends one character.
pub assume_specification[ String::push ](s: &mut String, ch: char)
    ensures
        final(s)@ == old(s)@.push(ch),
;

/// The characters of a string.
pub fn chars_of(s: &str) -> (v: Vec<char>)
    ensures
        v@ == s@,
{
    let mut v: Vec<char> = Vec::new();
    for c in it: s.chars()
        invariant
            it.seq() == s@,
            v@ == s@.take(it.index() as int),
    {
        v.push(c);
        assert(v@ =~= s@.take(it.index() + 1));
    }
    assert(s@.take(s@.len() as int) =~= s@);
    v
}

/// The string made of `v[from..to]`.
pub fn string_of(v: &Vec<char>, from: usize, to: usize) -> (s: String)
    requires
        from <= to <= v@.len(),
    ensures
        s@ == v@.subrange(from as int, to as int),
{
    let mut s: String = String::new();
    let mut i: usize = from;
    while i < to
        invariant
            from <= i <= to <= v@.len(),
            s@ == v@.subrange(from as int, i as int),
        decreases to - i,
    {
        s.push(v[i]);
        i += 1;
        assert(s@ =~= v@.subrange(from as int, i as int));
    }
    s
}

/// Whether two strings hold the same characters.
pub fn same_text(a: &str, b: &str) -> (same: bool)
    ensures
        same == (a@ == b@),
{
    let x: Vec<char> = chars_of(a);
    let y: Vec<char> = chars_of(b);
    if x.len() != y.len() {
        return false;
    }
    let mut i: usize = 0;
    while i < x.len()
        invariant
            i <= x@.len(),
            x@.len() == y@.len(),
            x@ == a@,
            y@ == b@,
            forall|k: int| 0 <= k < i ==> x@[k] == y@[k],
        decreases x@.len() - i,
    {
        if x[i] != y[i] {
            return false;
        }
        i += 1;
    }
    assert(x@ =~= y@);
    true
}

/// Whether `needle` stands in `hay` at position `at`.
pub open spec fn occurs_at(hay: Seq<char>, needle: Seq<char>, at: int) -> bool {
    0 <= at && at + needle.len() <= hay.len() && hay.subrange(at, at + needle.len()) == needle
}

/// Whether `needle` is a substring of `hay`.
pub open spec fn contains(hay: Seq<char>, needle: Seq<char>) -> bool {
    exists|at: int| occurs_at(hay, needle, at)
}

/// Whether `needle` stands in `hay` at position `at`.
fn matches_at(hay: &Vec<char>, needle: &Vec<char>, at: usize) -> (found: bool)
    requires
        at + needle@.len() <= hay@.len(),
    ensures
        found == occurs_at(hay@, needle@, at as int),
{
    let size: usize = hay.len();
    let mut i: usize = 0;
    while i < needle.len()
        invariant
            i <= needle@.len(),
            size == hay@.len(),
            at + needle@.len() <= hay@.len(),
            forall|k: int| 0 <= k < i ==> hay@[at + k] == needle@[k],
        decreases needle@.len() - i,
    {
        if hay[at + i] != needle[i] {
            assert(hay@.subrange(at as int, at + needle@.len())[i as int] != needle@[i as int]);
            return false;
        }
        i += 1;
    }
    assert(hay@.subrange(at as int, at + needle@.len()) =~= needle@);
    true
}

/// Whether `needle` is a substring of `hay`.
pub fn contains_text(hay: &str, needle: &str) -> (found: bool)
    ensures
        found == contains(hay@, needle@),
{
    let h: Vec<char> = chars_of(hay);
    let n: Vec<char> = chars_of(needle);
    if n.len() > h.len() {
        return false;
    }
    let last: usize = h.len() - n.len();
    let mut at: usize = 0;
    while at <= last
        invariant
            h@ == hay@,
            n@ == needle@,
            last + n@.len() == h@.len(),
            at <= last + 1,
            forall|k: int| 0 <= k < at ==> !occurs_at(h@, n@, k),
        decreases last + 1 - at,
    {
        if matches_at(&h, &n, at) {
            return true;
        }
        if at == last {
            return false;
        }
        at += 1;
    }
    false
}

/// Whether `text` begins with `prefix`.
pub open spec fn begins_with(text: Seq<char>, prefix: Seq<char>) -> bool {
    occurs_at(text, prefix, 0)
}

/// Whether `text` begins with `prefix`.
pub fn starts_with_text(text: &str, prefix: &str) -> (found: bool)
    ensures
        found == begins_with(text@, prefix@),
{
    let h: Vec<char> = chars_of(text);
    let n: Vec<char> = chars_of(prefix);
    if n.len() > h.len() {
        false
    } else {
        matches_at(&h, &n, 0)
    }
}

/// The character of a decimal digit.
pub open spec fn digit_char(d: int) -> char {
    (('0' as int) + d) as char
}

/// The decimal numeral of a natural number.
pub open spec fn nat_text(n: nat) -> Seq<char>
    decreases n,
{
    if n < 10 {
        seq![digit_char(n as int)]
    } else {
        nat_text(n / 10).push(digit_char((n % 10) as int))
    }
}

/// The decimal numeral of an integer, with a minus sign where it is negative.
pub open spec fn int_text(n: int) -> Seq<char> {
    if n < 0 {
        seq!['-'] + nat_text((-n) as nat)
    } else {
        nat_text(n as nat)
    }
}

/// The decimal numeral of `n` in `width` digits, leading zeros included.
pub open spec fn padded_text(n: nat, width: nat) -> Seq<char>
    decreases width,
{
    if width == 0 {
        Seq::empty()
    } else {
        padded_text(n / 10, (width - 1) as nat).push(digit_char((n % 10) as int))
    }
}

/// Ten to the power `k`.
pub open spec fn pow10(k: nat) -> nat
    decreases k,
{
    if k == 0 {
        1
    } else {
        10 * pow10((k - 1) as nat)
    }
}

/// The quotient `n / d` rounded to the nearest integer, ties to the even one.
pub open spec fn half_even(n: nat, d: nat) -> nat {
    let q = n / d;
    let r = n % d;
    if 2 * r > d || (2 * r == d && q % 2 == 1) {
        q + 1
    } else {
        q
    }
}

/// A fixed-point number written with `decimals` places.
pub open spec fn fixed_text(v: int, decimals: nat) -> Seq<char>
    recommends
        decimals <= 12,
{
    let r = half_even(abs_of(v) as nat, pow10((12 - decimals) as nat));
    let whole = nat_text(r / pow10(decimals));
    let sign = if v < 0 {
        seq!['-']
    } else {
        Seq::<char>::empty()
    };
    if decimals == 0 {
        sign + whole
    } else {
        (sign + whole).push('.') + padded_text(r % pow10(decimals), decimals)
    }
}

/// The digit character of `d`.
pub fn digit_of(d: u8) -> (c: char)
    requires
        d < 10,
    ensures
        c == digit_char(d as int),
{
    (48u8 + d) as char
}

/// The decimal numeral of `n`.
pub fn nat_string(n: u128) -> (s: String)
    ensures
        s@ == nat_text(n as nat),
    decreases n,
{
    if n < 10 {
        let mut s: String = String::new();
        s.push(digit_of(n as u8));
        assert(s@ =~= seq![digit_char(n as int)]);
        s
    } else {
        let mut s: String = nat_string(n / 10);
        s.push(digit_of((n % 10) as u8));
        s
    }
}

/// The decimal numeral of `n`.
pub fn u64_string(n: u64) -> (s: String)
    ensures
        s@ == nat_text(n as nat),
{
    nat_string(n as u128)
}

/// The magnitude of `v`.
pub fn magnitude(v: i128) -> (m: u128)
    ensures
        m == abs_of(v as int),
{
    if v >= 0 {
        v as u128
    } else if v == i128::MIN {
        170_141_183_460_469_231_731_687_303_715_884_105_728u128
    } else {
        (-v) as u128
    }
}

/// The decimal numeral of `n`, with a minus sign where it is negative.
pub fn int_string(n: i128) -> (s: String)
    ensures
        s@ == int_text(n as int),
{
    if n < 0 {
        let mut s: String = String::new();
        s.push('-');
        let m: String = nat_string(magnitude(n));
        s.append(m.as_str());
        assert(s@ =~= seq!['-'] + nat_text((-n) as nat));
        s
    } else {
        nat_string(n as u128)
    }
}

/// The decimal numeral of `n` in `width` digits, leading zeros included.
pub fn padded_string(n: u128, width: u32) -> (s: String)
    ensures
        s@ == padded_text(n as nat, width as nat),
    decreases width,
{
    if width == 0 {
        let s: String = String::new();
        assert(s@ =~= Seq::<char>::empty());
        s
    } else {
        let mut s: String = padded_string(n / 10, width - 1);
        s.push(digit_of((n % 10) as u8));
        s
    }
}

/// Ten to the power `k`.
pub fn ten_to(k: u32) -> (p: u128)
    requires
        k <= 28,
    ensures
        p == pow10(k as nat),
        0 < p <= 10_000_000_000_000_000_000_000_000_000u128,
{
    proof {
        lemma_pow10_28();
        lemma_pow10_monotone(k as nat, 28);
    }
    let mut p: u128 = 1;
    let mut i: u32 = 0;
    while i < k
        invariant
            i <= k <= 28,
            p == pow10(i as nat),
            pow10(28) == 10_000_000_000_000_000_000_000_000_000u128,
        decreases k - i,
    {
        proof {
            lemma_pow10_monotone((i + 1) as nat, 28);
        }
        p = 10 * p;
        i += 1;
    }
    proof {
        lemma_pow10_positive(k as nat);
    }
    p
}

pub proof fn lemma_pow10_positive(k: nat)
    ensures
        pow10(k) > 0,
    decreases k,
{
    if k > 0 {
        lemma_pow10_positive((k - 1) as nat);
    }
}

pub proof fn lemma_pow10_monotone(j: nat, k: nat)
    requires
        j <= k,
    ensures
        pow10(j) <= pow10(k),
    decreases k,
{
    if j < k {
        lemma_pow10_monotone(j, (k - 1) as nat);
        lemma_pow10_positive((k - 1) as nat);
    }
}

pub proof fn lemma_pow10_add(j: nat, k: nat)
    ensures
        pow10(j + k) == pow10(j) * pow10(k),
    decreases k,
{
    if k > 0 {
        lemma_pow10_add(j, (k - 1) as nat);
        assert(j + k - 1 == j + (k - 1) as nat);
        assert(pow10((j + k) as nat) == 10 * pow10((j + k - 1) as nat));
        assert(10 * (pow10(j) * pow10((k - 1) as nat)) == pow10(j) * (10 * pow10((k - 1) as nat)))
            by (nonlinear_arith);
    } else {
        assert(pow10(0) == 1);
        assert(pow10(j) * 1 == pow10(j)) by (nonlinear_arith);
    }
}

pub proof fn lemma_pow10_28()
    ensures
        pow10(12) == ONE,
        pow10(28) == 10_000_000_000_000_000_000_000_000_000u128,
{
    assert(pow10(8) == 100_000_000) by {
        reveal_with_fuel(pow10, 9);
    }
    assert(pow10(12) == ONE) by {
        lemma_pow10_add(8, 4);
        assert(pow10(4) == 10_000) by {
            reveal_with_fuel(pow10, 5);
        }
    }
    assert(pow10(16) == 10_000_000_000_000_000) by {
        lemma_pow10_add(8, 8);
    }
    lemma_pow10_add(12, 16);
}

/// A fixed-point number written with `decimals` places.
pub fn fixed_string(v: i128, decimals: u32) -> (s: String)
    requires
        decimals <= 12,
    ensures
        s@ == fixed_text(v as int, decimals as nat),
{
    let m: u128 = magnitude(v);
    let unit: u128 = ten_to(12 - decimals);
    let q: u128 = m / unit;
    let rest: u128 = m % unit;
    let up: bool = rest > unit - rest || (rest == unit - rest && q % 2 == 1);
    proof {
        assert(q <= m) by (nonlinear_arith)
            requires
                q == m / unit,
                unit > 0,
                m >= 0,
        ;
    }
    let r: u128 = if up {
        q + 1
    } else {
        q
    };
    assert(r == half_even(m as nat, unit as nat));
    let place: u128 = ten_to(decimals);
    let mut s: String = String::new();
    if v < 0 {
        s.push('-');
    }
    let whole: String = nat_string(r / place);
    s.append(whole.as_str());
    if decimals > 0 {
        s.push('.');
        let part: String = padded_string(r % place, decimals);
        s.append(part.as_str());
    }
    let ghost sign = if v < 0 {
        seq!['-']
    } else {
        Seq::<char>::empty()
    };
    assert(s@ =~= fixed_text(v as int, decimals as nat));
    s
}

/// Whether a character has the Unicode property `White_Space`.
pub open spec fn is_space(c: char) -> bool {
    let n = c as int;
    9 <= n <= 13 || n == 0x20 || n == 0x85 || n == 0xa0 || n == 0x1680 || 0x2000 <= n <= 0x200a || n
        == 0x2028 || n == 0x2029 || n == 0x202f || n == 0x205f || n == 0x3000
}

/// Whether a character has the Unicode property `White_Space`.
pub fn space_test(c: char) -> (r: bool)
    ensures
        r == is_space(c),
{
    let n: u32 = c as u32;
    (9 <= n && n <= 13) || n == 0x20 || n == 0x85 || n == 0xa0 || n == 0x1680 || (0x2000 <= n && n
        <= 0x200a) || n == 0x2028 || n == 0x2029 || n == 0x202f || n == 0x205f || n == 0x3000
}

/// Whether a text holds white space only.
pub open spec fn is_blank(s: Seq<char>) -> bool {
    forall|i: int| 0 <= i < s.len() ==> is_space(#[trigger] s[i])
}

/// The text without the white space around it.
pub open spec fn trimmed(s: Seq<char>) -> Seq<char> {
    choose|t: Seq<char>| is_trimmed(s, t)
}

/// `t` is `s` without the white space at both ends.
pub open spec fn is_trimmed(s: Seq<char>, t: Seq<char>) -> bool {
    exists|from: int, to: int| #[trigger] trims(s, t, from, to)
}

/// `t` is `s[from..to]`, with white space only before and behind it and none at its
/// own ends.
pub open spec fn trims(s: Seq<char>, t: Seq<char>, from: int, to: int) -> bool {
    &&& 0 <= from <= to <= s.len()
    &&& t == s.subrange(from, to)
    &&& is_blank(s.take(from))
    &&& is_blank(s.skip(to))
    &&& (t.len() > 0 ==> !is_space(t[0]) && !is_space(t.last()))
}

/// A text without the white space at both ends.
pub fn trim_text(s: &str) -> (t: String)
    ensures
        is_trimmed(s@, t@),
        t@ == trimmed(s@),
        t@.len() == 0 <==> is_blank(s@),
{
    let v: Vec<char> = chars_of(s);
    let mut from: usize = 0;
    while from < v.len() && space_test(v[from])
        invariant
            from <= v@.len(),
            v@ == s@,
            forall|i: int| 0 <= i < from ==> is_space(#[trigger] v@[i]),
        decreases v@.len() - from,
    {
        from += 1;
    }
    let mut to: usize = v.len();
    while to > from && space_test(v[to - 1])
        invariant
            from <= to <= v@.len(),
            v@ == s@,
            from < v@.len() ==> !is_space(v@[from as int]),
            forall|i: int| to <= i < v@.len() ==> is_space(#[trigger] v@[i]),
        decreases to,
    {
        to -= 1;
    }
    let t: String = string_of(&v, from, to);
    proof {
        assert(is_blank(s@.take(from as int)));
        assert(is_blank(s@.skip(to as int))) by {
            assert forall|i: int| 0 <= i < s@.skip(to as int).len() implies is_space(
                #[trigger] s@.skip(to as int)[i],
            ) by {
                assert(s@.skip(to as int)[i] == v@[to + i]);
            }
        }
        assert(trims(s@, t@, from as int, to as int));
        if from < v@.len() {
            assert(!is_space(s@[from as int]));
        }
        assert(is_trimmed(s@, t@));
        lemma_trimmed_unique(s@, t@, trimmed(s@));
    }
    t
}

/// A text has one trimmed form.
pub proof fn lemma_trimmed_unique(s: Seq<char>, t: Seq<char>, u: Seq<char>)
    requires
        is_trimmed(s, t),
        is_trimmed(s, u),
    ensures
        t == u,
{
    let (a, b) = choose|a: int, b: int| #[trigger] trims(s, t, a, b);
    let (c, d) = choose|c: int, d: int| #[trigger] trims(s, u, c, d);
    if t.len() == 0 {
        if u.len() > 0 {
            assert(u[0] == s[c]);
            if c < a {
                assert(s.take(a)[c] == s[c]);
            } else {
                assert(s.skip(b)[c - b] == s[c]);
            }
        }
        assert(t =~= u);
    } else if u.len() == 0 {
        assert(t[0] == s[a]);
        if a < c {
            assert(s.take(c)[a] == s[a]);
        } else {
            assert(s.skip(d)[a - d] == s[a]);
        }
    } else {
        assert(t[0] == s[a] && u[0] == s[c]);
        assert(t.last() == s[b - 1] && u.last() == s[d - 1]);
        if a < c {
            assert(s.take(c)[a] == s[a]);
        } else if c < a {
            assert(s.take(a)[c] == s[c]);
        }
        if b < d {
            assert(s.skip(b)[d - 1 - b] == s[d - 1]);
        } else if d < b {
            assert(s.skip(d)[b - 1 - d] == s[b - 1]);
        }
    }
}

/// The alphabetical order of texts: by the first character that differs, and the
/// shorter one first where there is none.
pub open spec fn text_less(a: Seq<char>, b: Seq<char>) -> bool
    decreases a.len(),
{
    if b.len() == 0 {
        false
    } else if a.len() == 0 {
        true
    } else if a[0] == b[0] {
        text_less(a.drop_first(), b.drop_first())
    } else {
        (a[0] as int) < (b[0] as int)
    }
}

/// The order is transitive.
pub proof fn lemma_text_less_transitive(a: Seq<char>, b: Seq<char>, c: Seq<char>)
    requires
        text_less(a, b),
        text_less(b, c),
    ensures
        text_less(a, c),
    decreases a.len(),
{
    if a.len() > 0 && a[0] == b[0] && b[0] == c[0] {
        lemma_text_less_transitive(a.drop_first(), b.drop_first(), c.drop_first());
    }
}

/// Two texts are equal, or one comes before the other.
pub proof fn lemma_text_less_total(a: Seq<char>, b: Seq<char>)
    ensures
        a == b || text_less(a, b) || text_less(b, a),
        !(text_less(a, b) && text_less(b, a)),
        !text_less(a, a),
    decreases a.len(),
{
    if a.len() > 0 {
        lemma_text_less_total(a.drop_first(), a.drop_first());
    }
    if a.len() == 0 && b.len() == 0 {
        assert(a =~= b);
    } else if a.len() > 0 && b.len() > 0 && a[0] == b[0] {
        lemma_text_less_total(a.drop_first(), b.drop_first());
        if a.drop_first() == b.drop_first() {
            assert(a =~= seq![a[0]] + a.drop_first());
            assert(b =~= seq![b[0]] + b.drop_first());
        }
    }
}

fn chars_less(a: &Vec<char>, b: &Vec<char>, from: usize) -> (r: bool)
    requires
        from <= a@.len(),
        from <= b@.len(),
    ensures
        r == text_less(a@.skip(from as int), b@.skip(from as int)),
    decreases a@.len() - from,
{
    if from == b.len() {
        return false;
    }
    if from == a.len() {
        return true;
    }
    let x: char = a[from];
    let y: char = b[from];
    let ghost s = a@.skip(from as int);
    let ghost t = b@.skip(from as int);
    assert(s.len() > 0 && t.len() > 0 && s[0] == x && t[0] == y);
    if x == y {
        assert(s.drop_first() =~= a@.skip(from + 1));
        assert(t.drop_first() =~= b@.skip(from + 1));
        assert(text_less(s, t) == text_less(s.drop_first(), t.drop_first()));
        chars_less(a, b, from + 1)
    } else {
        assert(text_less(s, t) == ((x as int) < (y as int)));
        x < y
    }
}

/// Whether one text comes before another.
pub fn comes_before(a: &str, b: &str) -> (r: bool)
    ensures
        r == text_less(a@, b@),
{
    let x: Vec<char> = chars_of(a);
    let y: Vec<char> = chars_of(b);
    assert(x@.skip(0) =~= x@);
    assert(y@.skip(0) =~= y@);
    chars_less(&x, &y, 0)
}

/// The contents of a list of texts.
pub open spec fn texts(v: Seq<String>) -> Seq<Seq<char>> {
    Seq::new(v.len(), |i: int| v[i]@)
}

/// Whether each text of a list comes before the next one.
pub open spec fn ascending(v: Seq<Seq<char>>) -> bool {
    forall|i: int, j: int| 0 <= i < j < v.len() ==> text_less(#[trigger] v[i], #[trigger] v[j])
}

/// Puts a text into an ascending list, unless it is there already.
pub fn insert_text(list: &mut Vec<String>, t: &str)
    requires
        ascending(texts(old(list)@)),
    ensures
        ascending(texts(final(list)@)),
        forall|x: Seq<char>| #[trigger]
            texts(final(list)@).contains(x) <==> texts(old(list)@).contains(x) || x == t@,
{
    let ghost before = texts(list@);
    let mut at: usize = 0;
    while at < list.len() && comes_before(list[at].as_str(), t)
        invariant
            at <= list@.len(),
            list@ == old(list)@,
            before == texts(list@),
            forall|i: int| 0 <= i < at ==> text_less(#[trigger] before[i], t@),
        decreases list@.len() - at,
    {
        assert(before[at as int] == list@[at as int]@);
        at += 1;
    }
    if at < list.len() && same_text(list[at].as_str(), t) {
        assert(before[at as int] == t@);
        assert(before.contains(t@));
        return;
    }
    list.insert(at, String::from_str(t));
    proof {
        let after = texts(list@);
        assert(after =~= before.insert(at as int, t@));
        if at < before.len() {
            lemma_text_less_total(before[at as int], t@);
            assert(text_less(t@, before[at as int]));
        }
        assert forall|i: int, j: int| 0 <= i < j < after.len() implies text_less(
            #[trigger] after[i],
            #[trigger] after[j],
        ) by {
            if j < at {
                assert(after[i] == before[i] && after[j] == before[j]);
            } else if j == at {
                assert(after[i] == before[i]);
            } else if i < at {
                assert(after[i] == before[i] && after[j] == before[j - 1]);
            } else if i == at {
                assert(after[j] == before[j - 1]);
                if j - 1 > at {
                    assert(text_less(before[at as int], before[j - 1]));
                    lemma_text_less_transitive(t@, before[at as int], before[j - 1]);
                }
            } else {
                assert(after[i] == before[i - 1] && after[j] == before[j - 1]);
            }
        }
        assert forall|x: Seq<char>| #[trigger]
            after.contains(x) <==> before.contains(x) || x == t@ by {
            if after.contains(x) {
                let i = choose|i: int| 0 <= i < after.len() && after[i] == x;
                if i < at {
                    assert(before[i] == x);
                } else if i > at {
                    assert(before[i - 1] == x);
                }
            }
            if before.contains(x) {
                let i = choose|i: int| 0 <= i < before.len() && before[i] == x;
                if i < at {
                    assert(after[i] == x);
                } else {
                    assert(after[i + 1] == x);
                }
            }
            if x == t@ {
                assert(after[at as int] == x);
            }
        }
    }
}

/// A row of spaces.
pub open spec fn blanks(n: nat) -> Seq<char> {
    Seq::new(n, |i: int| ' ')
}

/// The text, filled up with spaces behind it.
pub open spec fn left_text(t: Seq<char>, width: nat) -> Seq<char> {
    if t.len() < width {
        t + blanks((width - t.len()) as nat)
    } else {
        t
    }
}

/// The text, filled up with spaces before it.
pub open spec fn right_text(t: Seq<char>, width: nat) -> Seq<char> {
    if t.len() < width {
        blanks((width - t.len()) as nat) + t
    } else {
        t
    }
}

fn blank_string(n: usize) -> (s: String)
    ensures
        s@ == blanks(n as nat),
{
    let mut s: String = String::new();
    assert(s@ =~= blanks(0));
    let mut i: usize = 0;
    while i < n
        invariant
            i <= n,
            s@ == blanks(i as nat),
        decreases n - i,
    {
        s.push(' ');
        assert(s@ =~= blanks(i as nat + 1));
        i += 1;
    }
    s
}

/// Fills a text up with spaces behind it.
pub fn left_string(t: &str, width: usize) -> (s: String)
    ensures
        s@ == left_text(t@, width as nat),
{
    let n: usize = chars_of(t).len();
    let mut s: String = String::from_str(t);
    if n < width {
        s.append(blank_string(width - n).as_str());
    }
    s
}

/// Fills a text up with spaces before it.
pub fn right_string(t: &str, width: usize) -> (s: String)
    ensures
        s@ == right_text(t@, width as nat),
{
    let n: usize = chars_of(t).len();
    if n < width {
        let mut s: String = blank_string(width - n);
        s.append(t);
        s
    } else {
        String::from_str(t)
    }
}

} // verus!
