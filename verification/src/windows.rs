//! Which part of the data a simulation looks at.
use crate::features::Candle;
use crate::fixed::{bounded, clamp_fixed, clamped, div_floor, max_of, min_of, ONE};
use crate::money::{plain_string, plain_text};
use crate::text::{nat_text, u64_string};
use vstd::prelude::*;

verus! {

/// The elements from `from` up to, but not including, `to`.
#[derive(Clone, Copy, Debug, PartialEq, Eq, Structural)]
pub struct Span {
    pub from: usize,
    pub to: usize,
}

/// Whether `i` is the position of the first candle that opens at `t` or later, or
/// the length where there is none.
pub open spec fn is_first_from(c: Seq<Candle>, t: i64, i: int) -> bool {
    &&& 0 <= i <= c.len()
    &&& forall|k: int| 0 <= k < i ==> (#[trigger] c[k]).open_time < t
    &&& (i < c.len() ==> c[i].open_time >= t)
}

/// The position of the first candle that opens at `t` or later, or the length.
pub fn first_from(candles: &Vec<Candle>, t: i64) -> (i: usize)
    ensures
        is_first_from(candles@, t, i as int),
{
    let mut i: usize = 0;
    while i < candles.len() && candles[i].open_time < t
        invariant
            i <= candles@.len(),
            forall|k: int| 0 <= k < i ==> (#[trigger] candles@[k]).open_time < t,
        decreases candles@.len() - i,
    {
        i += 1;
    }
    i
}

/// The number of bars that have to come before the first simulated one.
pub const WARM_UP: usize = 120;

/// The longest history that a bar looks at.
pub const HISTORY: usize = 200;

/// The windows of one bar.
#[derive(Clone, Copy, Debug, PartialEq, Eq, Structural)]
pub struct BarWindows {
    pub m1: Span,
    pub m5: Span,
    pub h1: Span,
}

/// The window of another interval for a bar that opens at `t`: it ends with the
/// first candle that opens at `t` or later, or with the last one, and reaches 200
/// candles back from there.
pub open spec fn is_context(c: Seq<Candle>, t: i64, s: Span) -> bool {
    exists|i: int| #[trigger] is_first_from(c, t, i) && context_span(c.len() as int, i) == s
}

/// The window that ends with position `i`.
pub open spec fn context_span(len: int, i: int) -> Span {
    let last = if i < len {
        i
    } else {
        max_of(len - 1, 0)
    };
    Span {
        from: max_of(last - HISTORY, 0) as usize,
        to: min_of(last + 1, len) as usize,
    }
}

fn context(candles: &Vec<Candle>, t: i64) -> (s: Span)
    ensures
        is_context(candles@, t, s),
        s.from <= s.to <= candles@.len(),
{
    let len: usize = candles.len();
    let i: usize = first_from(candles, t);
    assert(is_first_from(candles@, t, i as int));
    let last: usize = if i < len {
        i
    } else if len > 0 {
        len - 1
    } else {
        0
    };
    let to: usize = if len == 0 {
        0
    } else {
        last + 1
    };
    Span { from: last.saturating_sub(HISTORY), to }
}

/// The windows of the bar at position `i` of the five-minute candles; none while
/// there is too little history.
pub fn bar_windows(
    i: usize,
    candles_1m: &Vec<Candle>,
    candles_5m: &Vec<Candle>,
    candles_1h: &Vec<Candle>,
) -> (r: Option<BarWindows>)
    requires
        i < candles_5m@.len(),
    ensures
        r is Some <==> i + 1 >= WARM_UP,
        r is Some ==> {
            let t = candles_5m@[i as int].open_time;
            &&& r->0.m5 == (Span { from: max_of(i + 1 - HISTORY, 0) as usize, to: (i + 1) as usize })
            &&& is_context(candles_1m@, t, r->0.m1)
            &&& is_context(candles_1h@, t, r->0.h1)
            &&& r->0.m1.from <= r->0.m1.to <= candles_1m@.len()
            &&& r->0.h1.from <= r->0.h1.to <= candles_1h@.len()
        },
{
    let size: usize = candles_5m.len();
    let end: usize = i + 1;
    if end < WARM_UP {
        return None;
    }
    let t: i64 = candles_5m[i].open_time;
    Some(
        BarWindows {
            m1: context(candles_1m, t),
            m5: Span { from: end.saturating_sub(HISTORY), to: end },
            h1: context(candles_1h, t),
        },
    )
}

/// A bar looks at no candle of another interval that opens later than the first
/// one at or after its own time.
pub proof fn law_context_does_not_look_ahead(c: Seq<Candle>, t: i64, s: Span, k: int)
    requires
        is_context(c, t, s),
        s.from <= k < s.to - 1,
    ensures
        c[k].open_time < t,
{
    let i = choose|i: int| #[trigger] is_first_from(c, t, i) && context_span(c.len() as int, i) == s;
    assert(k < i);
}

/// There is only one window of a bar.
pub proof fn law_context_is_unique(c: Seq<Candle>, t: i64, r: Span, s: Span)
    requires
        is_context(c, t, r),
        is_context(c, t, s),
    ensures
        r == s,
{
    let i = choose|i: int| #[trigger] is_first_from(c, t, i) && context_span(c.len() as int, i) == r;
    let j = choose|j: int| #[trigger] is_first_from(c, t, j) && context_span(c.len() as int, j) == s;
    if i < j {
        assert(c[i].open_time < t);
    } else if j < i {
        assert(c[j].open_time < t);
    }
}

/// A list up to and with position `i`.
pub open spec fn through(c: Seq<Candle>, i: int) -> Seq<Candle> {
    if i < c.len() {
        c.take(i + 1)
    } else {
        c
    }
}

/// Whether two lists are the same up to and with the first candle that opens at
/// `t` or later.
pub open spec fn same_until(a: Seq<Candle>, b: Seq<Candle>, t: i64) -> bool {
    exists|i: int| #[trigger]
        is_first_from(a, t, i) && is_first_from(b, t, i) && through(a, i) == through(b, i)
}

/// A bar that opens at `t` sees the same window in lists that are the same up to
/// `t` or a later time.
pub proof fn law_context_sees_no_later_candle(
    a: Seq<Candle>,
    b: Seq<Candle>,
    t: i64,
    later: i64,
    s: Span,
)
    requires
        t <= later,
        same_until(a, b, later),
        is_context(a, t, s),
        s.from <= s.to <= a.len(),
    ensures
        is_context(b, t, s),
        s.to <= b.len(),
        a.subrange(s.from as int, s.to as int) == b.subrange(s.from as int, s.to as int),
{
    let e = choose|e: int| #[trigger]
        is_first_from(a, later, e) && is_first_from(b, later, e) && through(a, e) == through(b, e);
    let i = choose|i: int| #[trigger] is_first_from(a, t, i) && context_span(a.len() as int, i) == s;
    assert(i <= e) by {
        if e < i {
            assert(a[e].open_time < t);
        }
    }
    let x = through(a, e);
    assert(e < a.len() <==> e < b.len());
    assert forall|k: int| 0 <= k < x.len() implies a[k] == #[trigger] b[k] by {
        assert(x[k] == a[k]);
        assert(through(b, e)[k] == b[k]);
    }
    assert(is_first_from(b, t, i));
    assert(context_span(b.len() as int, i) == s);
    assert(a.subrange(s.from as int, s.to as int) =~= b.subrange(s.from as int, s.to as int));
}

/// Whether the cached candles are enough to simulate.
pub fn enough_to_simulate(n_1m: usize, n_5m: usize, n_1h: usize) -> (r: bool)
    ensures
        r == (n_1m >= 120 && n_5m >= 120 && n_1h >= 60),
{
    n_1m >= 120 && n_5m >= 120 && n_1h >= 60
}

/// Why a part of the data cannot be used.
#[derive(Clone, Copy, Debug, PartialEq, Eq, Structural)]
pub enum RangeError {
    /// The end is not behind the start.
    Reversed { start_frac: i128, end_frac: i128 },
    /// The part holds too few candles.
    TooSmall { candles: usize },
}

/// An error in words. A validation over windows says what it is.
pub open spec fn range_error_text(e: RangeError, walking: bool) -> Seq<char> {
    match e {
        RangeError::Reversed { start_frac, end_frac } => "end_frac ("@ + plain_text(
            end_frac as int,
        ) + ") must be > start_frac ("@ + plain_text(start_frac as int) + ")"@,
        RangeError::TooSmall { candles } => "Selected range too small ("@ + nat_text(
            candles as nat,
        ) + " candles)"@ + (if walking {
            " for walk-forward"@
        } else {
            ""@
        }) + ". Widen start/end fractions."@,
    }
}

impl RangeError {
    /// The fractions are within the range of the arithmetic.
    pub open spec fn ok(self) -> bool {
        match self {
            RangeError::Reversed { start_frac, end_frac } => bounded(start_frac as int) && bounded(
                end_frac as int,
            ),
            _ => true,
        }
    }

    /// The error in words.
    pub fn message(self, walking: bool) -> (s: String)
        requires
            self.ok(),
        ensures
            s@ == range_error_text(self, walking),
    {
        match self {
            RangeError::Reversed { start_frac, end_frac } => {
                let mut s: String = String::from_str("end_frac (");
                s.append(plain_string(end_frac).as_str());
                s.append(") must be > start_frac (");
                s.append(plain_string(start_frac).as_str());
                s.append(")");
                s
            },
            RangeError::TooSmall { candles } => {
                let mut s: String = String::from_str("Selected range too small (");
                s.append(u64_string(candles as u64).as_str());
                s.append(" candles)");
                if walking {
                    s.append(" for walk-forward");
                } else {
                    s.append("");
                }
                s.append(". Widen start/end fractions.");
                s
            },
        }
    }
}

/// The first element of the part that starts at a fraction of the data.
pub open spec fn start_of(total: int, frac: int) -> int {
    (total * frac) / (ONE as int)
}

/// The end of the part that ends at a fraction of the data, rounded up.
pub open spec fn end_of(total: int, frac: int) -> int {
    min_of((total * frac + ONE - 1) / (ONE as int), total)
}

/// The part of the data between two fractions. Both are moved into `0..=1` first.
pub open spec fn range_result(
    total: int,
    start_frac: int,
    end_frac: int,
    least: int,
) -> Result<Span, RangeError> {
    let s = clamped(start_frac, 0, ONE as int);
    let e = clamped(end_frac, 0, ONE as int);
    if e <= s {
        Err(RangeError::Reversed { start_frac: s as i128, end_frac: e as i128 })
    } else {
        let from = start_of(total, s);
        let to = end_of(total, e);
        if max_of(to - from, 0) < least {
            Err(RangeError::TooSmall { candles: max_of(to - from, 0) as usize })
        } else {
            Ok(Span { from: from as usize, to: to as usize })
        }
    }
}

/// The part of the data between two fractions of it, of at least `least` candles.
pub fn select_range(total: usize, start_frac: i128, end_frac: i128, least: usize) -> (r: Result<
    Span,
    RangeError,
>)
    requires
        least > 0,
    ensures
        r == range_result(total as int, start_frac as int, end_frac as int, least as int),
        r is Ok ==> r->Ok_0.from < r->Ok_0.to <= total,
        r is Err ==> r->Err_0.ok(),
{
    let s: i128 = clamp_fixed(start_frac, 0, ONE);
    let e: i128 = clamp_fixed(end_frac, 0, ONE);
    if e <= s {
        return Err(RangeError::Reversed { start_frac: s, end_frac: e });
    }
    let n: i128 = total as i128;
    proof {
        assert(0 <= n * s <= n * ONE && 0 <= n * e <= n * ONE) by (nonlinear_arith)
            requires
                n >= 0,
                0 <= s <= ONE,
                0 <= e <= ONE,
        ;
        assert(n * ONE <= 0x1_0000_0000_0000_0000 * ONE) by (nonlinear_arith)
            requires
                n <= 0x1_0000_0000_0000_0000,
        ;
        vstd::arithmetic::div_mod::lemma_div_is_ordered(n * s, n * ONE, ONE as int);
        vstd::arithmetic::div_mod::lemma_div_multiples_vanish(n as int, ONE as int);
        assert(ONE * n == n * ONE) by (nonlinear_arith);
        vstd::arithmetic::div_mod::lemma_div_pos_is_pos(n * s, ONE as int);
        vstd::arithmetic::div_mod::lemma_div_pos_is_pos(n * e + ONE - 1, ONE as int);
    }
    let from: i128 = div_floor(n * s, ONE);
    let up: i128 = div_floor(n * e + ONE - 1, ONE);
    let to: i128 = if up <= n {
        up
    } else {
        n
    };
    let size: usize = if to > from {
        (to - from) as usize
    } else {
        0
    };
    if size < least {
        return Err(RangeError::TooSmall { candles: size });
    }
    Ok(Span { from: from as usize, to: to as usize })
}

/// Where the context of a part starts: 210 candles before the first one that opens
/// at its start or later.
pub fn padded_start(candles: &Vec<Candle>, t: i64) -> (r: usize)
    ensures
        exists|i: int| #[trigger] is_first_from(candles@, t, i) && r == max_of(i - 210, 0),
        r <= candles@.len(),
{
    let i: usize = first_from(candles, t);
    assert(is_first_from(candles@, t, i as int));
    i.saturating_sub(210)
}

/// One window of a walk through the data: its last part is the test.
#[derive(Clone, Copy, Debug, PartialEq, Eq, Structural)]
pub struct WalkWindow {
    pub start: usize,
    pub end: usize,
    pub test_start: usize,
}

/// Why there is no walk through the data.
#[derive(Clone, Copy, Debug, PartialEq, Eq, Structural)]
pub enum WalkError {
    NoWindows,
    TooFewCandles,
    WindowsTooSmall { window_size: usize },
}

impl WalkError {
    /// The error in words.
    pub fn message(self) -> (s: String)
        ensures
            s@ == (match self {
                WalkError::NoWindows => "n_windows must be > 0"@,
                WalkError::TooFewCandles => "Need at least 240 5m candles for walk-forward"@,
                WalkError::WindowsTooSmall { window_size } => "Windows too small ("@ + nat_text(
                    window_size as nat,
                ) + "). Reduce n_windows."@,
            }),
    {
        match self {
            WalkError::NoWindows => String::from_str("n_windows must be > 0"),
            WalkError::TooFewCandles => String::from_str(
                "Need at least 240 5m candles for walk-forward",
            ),
            WalkError::WindowsTooSmall { window_size } => {
                let mut s: String = String::from_str("Windows too small (");
                s.append(u64_string(window_size as u64).as_str());
                s.append("). Reduce n_windows.");
                s
            },
        }
    }
}

/// The window at position `w` of `n` equal ones; the last one takes the rest.
pub open spec fn walk_window(total: int, n: int, w: int, test_frac: int) -> WalkWindow {
    let size = total / n;
    let start = w * size;
    let end = if w + 1 < n {
        (w + 1) * size
    } else {
        total
    };
    WalkWindow {
        start: start as usize,
        end: end as usize,
        test_start: (start + ((end - start) * (ONE - test_frac)) / (ONE as int)) as usize,
    }
}

/// The share of a window that is its test, moved into 5% to 50%.
pub open spec fn test_share(test_fraction: int) -> int {
    clamped(test_fraction, 50_000_000_000, 500_000_000_000)
}

/// The bounds of one window lie within the data.
proof fn lemma_walk_window(total: int, n: int, w: int, test_frac: int)
    requires
        0 < n,
        0 <= w < n,
        total / n >= 120,
        50_000_000_000 <= test_frac <= 500_000_000_000,
        total <= usize::MAX,
    ensures
        ({
            let size = total / n;
            let start = w * size;
            let end = if w + 1 < n {
                (w + 1) * size
            } else {
                total
            };
            let test = start + ((end - start) * (ONE - test_frac)) / (ONE as int);
            &&& 0 <= start
            &&& start + 120 <= end <= total
            &&& start <= test < end
        }),
{
    let size = total / n;
    vstd::arithmetic::div_mod::lemma_fundamental_div_mod(total, n);
    assert(w * size >= 0 && (w + 1) * size == w * size + size && (w + 1) * size <= n * size) by (nonlinear_arith)
        requires
            0 <= w < n,
            size >= 120,
    ;
    let start = w * size;
    let end = if w + 1 < n {
        (w + 1) * size
    } else {
        total
    };
    let len = end - start;
    let part = len * (ONE - test_frac);
    assert(0 <= part < len * ONE) by (nonlinear_arith)
        requires
            len >= 120,
            part == len * (ONE - test_frac),
            50_000_000_000 <= test_frac <= 500_000_000_000,
    ;
    vstd::arithmetic::div_mod::lemma_div_pos_is_pos(part, ONE as int);
    assert(part / (ONE as int) < len) by {
        vstd::arithmetic::div_mod::lemma_fundamental_div_mod(part, ONE as int);
        assert(part / (ONE as int) < len) by (nonlinear_arith)
            requires
                part < len * ONE,
                ONE * (part / (ONE as int)) <= part,
        ;
    }
}

/// Why there is no walk through `total` candles in `n` windows, if there is none.
pub open spec fn walk_refusal(total: int, n: int) -> Option<WalkError> {
    if n == 0 {
        Some(WalkError::NoWindows)
    } else if total < 240 {
        Some(WalkError::TooFewCandles)
    } else if total / n < 120 {
        Some(WalkError::WindowsTooSmall { window_size: (total / n) as usize })
    } else {
        None
    }
}

/// The windows of a walk through `total` candles. There are `n_windows` of them,
/// of at least 120 candles each, and at least 240 candles in all.
pub fn walk_windows(total: usize, n_windows: usize, test_fraction: i128) -> (r: Result<
    Vec<WalkWindow>,
    WalkError,
>)
    ensures
        match r {
            Ok(v) => {
                &&& walk_refusal(total as int, n_windows as int) is None
                &&& v@ == Seq::new(
                    n_windows as nat,
                    |w: int| walk_window(
                        total as int,
                        n_windows as int,
                        w,
                        test_share(test_fraction as int),
                    ),
                )
            },
            Err(e) => walk_refusal(total as int, n_windows as int) == Some(e),
        },
{
    if n_windows == 0 {
        return Err(WalkError::NoWindows);
    }
    if total < 240 {
        return Err(WalkError::TooFewCandles);
    }
    let size: usize = total / n_windows;
    if size < 120 {
        return Err(WalkError::WindowsTooSmall { window_size: size });
    }
    let share: i128 = clamp_fixed(test_fraction, 50_000_000_000, 500_000_000_000);
    let ghost expected = Seq::new(
        n_windows as nat,
        |w: int| walk_window(total as int, n_windows as int, w, share as int),
    );
    let mut v: Vec<WalkWindow> = Vec::new();
    let mut w: usize = 0;
    while w < n_windows
        invariant
            w <= n_windows,
            size == total as int / n_windows as int,
            size >= 120,
            50_000_000_000 <= share <= 500_000_000_000,
            expected == Seq::new(
                n_windows as nat,
                |w: int| walk_window(total as int, n_windows as int, w, share as int),
            ),
            v@ == expected.take(w as int),
        decreases n_windows - w,
    {
        proof {
            lemma_walk_window(total as int, n_windows as int, w as int, share as int);
            assert(w * size >= 0 && (w + 1) * size == w * size + size) by (nonlinear_arith)
                requires
                    0 <= w,
                    size >= 120,
            ;
        }
        let start: usize = w * size;
        let end: usize = if w + 1 < n_windows {
            (w + 1) * size
        } else {
            total
        };
        let len: i128 = (end - start) as i128;
        proof {
            assert(0 <= len * (ONE - share) <= 0x1_0000_0000_0000_0000 * ONE) by (nonlinear_arith)
                requires
                    0 <= len <= 0x1_0000_0000_0000_0000,
                    0 <= ONE - share <= ONE,
            ;
        }
        let before_test: i128 = div_floor(len * (ONE - share), ONE);
        let test_start: usize = start + before_test as usize;
        v.push(WalkWindow { start, end, test_start });
        w += 1;
        assert(v@ =~= expected.take(w as int));
    }
    assert(v@ =~= expected);
    Ok(v)
}

/// The windows follow one another without gap or overlap from the first candle to
/// the last, and each has its test at its end.
pub proof fn law_windows_tile_the_data(total: int, n: int, w: int, test_fraction: int)
    requires
        0 < n,
        0 <= w < n,
        total <= usize::MAX,
        total / n >= 120,
    ensures
        ({
            let share = test_share(test_fraction);
            let here = walk_window(total, n, w, share);
            &&& (w == 0 ==> here.start == 0)
            &&& (w + 1 == n ==> here.end == total)
            &&& (w + 1 < n ==> walk_window(total, n, w + 1, share).start == here.end)
            &&& here.start <= here.test_start < here.end
            &&& here.end - here.start >= 120
        }),
{
    let share = test_share(test_fraction);
    lemma_walk_window(total, n, w, share);
    if w + 1 < n {
        lemma_walk_window(total, n, w + 1, share);
    }
}

/// The name of a window: its position and where its test starts.
pub open spec fn window_text(w: nat, test_start_ms: u64) -> Seq<char> {
    "window_"@ + nat_text(w) + "_test_from_"@ + nat_text(test_start_ms as nat)
}

/// The name of a window.
pub fn window_label(w: usize, test_start_ms: u64) -> (s: String)
    ensures
        s@ == window_text(w as nat, test_start_ms),
{
    let mut s: String = String::from_str("window_");
    s.append(u64_string(w as u64).as_str());
    s.append("_test_from_");
    s.append(u64_string(test_start_ms).as_str());
    s
}

/// The context ends with the first candle from the given time, or with the last candle where
/// there is none, and reaches back over the history that there is.
pub proof fn law_context_reaches_back(len: int, i: int)
    requires
        0 <= i <= len <= usize::MAX,
        len > 0,
    ensures
        ({
            let s = context_span(len, i);
            let newest = if i < len {
                i
            } else {
                len - 1
            };
            &&& s.to == newest + 1
            &&& newest <= HISTORY ==> s.from == 0
            &&& newest > HISTORY ==> s.to - s.from == HISTORY + 1
        }),
{
}

/// A range starts at the whole candles of its fraction and ends with the candle that its
/// fraction reaches into.
pub proof fn law_range_covers_its_fractions(total: int, start_frac: int, end_frac: int)
    requires
        total >= 0,
        0 <= start_frac <= ONE,
        0 <= end_frac <= ONE,
    ensures
        start_of(total, start_frac) * ONE <= total * start_frac < (start_of(total, start_frac) + 1)
            * ONE,
        end_of(total, end_frac) * ONE >= total * end_frac,
        (end_of(total, end_frac) - 1) * ONE < total * end_frac || end_of(total, end_frac) == 0,
        start_of(total, 0) == 0,
        end_of(total, ONE as int) == total,
{
    let one = ONE as int;
    let a = total * start_frac;
    let b = total * end_frac;
    assert(0 <= b <= total * one) by (nonlinear_arith)
        requires
            b == total * end_frac,
            total >= 0,
            0 <= end_frac <= one,
    ;
}

/// A range is refused exactly where its end is not after its start, or where it holds fewer
/// candles than it has to; fractions outside of nought and one are moved inside.
pub proof fn law_range_is_refused_for_cause(total: int, start_frac: int, end_frac: int, least: int)
    requires
        0 <= total <= usize::MAX,
        0 <= start_frac <= ONE,
        0 <= end_frac <= ONE,
        least > 0,
    ensures
        ({
            let r = range_result(total, start_frac, end_frac, least);
            let from = start_of(total, start_frac);
            let to = end_of(total, end_frac);
            &&& r is Ok <==> start_frac < end_frac && to - from >= least
            &&& r is Ok ==> r->Ok_0.from == from && r->Ok_0.to == to
            &&& r is Err && start_frac >= end_frac ==> r->Err_0 is Reversed
            &&& r is Err && start_frac < end_frac ==> r->Err_0 is TooSmall
        }),
{
    let one = ONE as int;
    let a = total * start_frac;
    let b = total * end_frac;
    assert(0 <= a <= total * one && 0 <= b <= total * one) by (nonlinear_arith)
        requires
            a == total * start_frac,
            b == total * end_frac,
            total >= 0,
            0 <= start_frac <= one,
            0 <= end_frac <= one,
    ;
}

/// The test part of a window is its end: the given share of it, to one candle, and the windows
/// but the last one are of one size.
pub proof fn law_test_part_is_its_share(total: int, n: int, w: int, test_frac: int)
    requires
        0 <= w < n,
        0 <= total <= usize::MAX,
        0 <= test_frac <= ONE,
    ensures
        ({
            let x = walk_window(total, n, w, test_frac);
            &&& x.start <= x.test_start <= x.end
            &&& (x.end - x.test_start) * ONE >= (x.end - x.start) * test_frac
            &&& (x.end - x.test_start - 1) * ONE < (x.end - x.start) * test_frac
            &&& w + 1 < n ==> x.end - x.start == total / n
            &&& w + 1 == n ==> x.end == total
            &&& x.start == w * (total / n)
        }),
{
    let size = total / n;
    vstd::arithmetic::div_mod::lemma_fundamental_div_mod(total, n);
    vstd::arithmetic::div_mod::lemma_div_pos_is_pos(total, n);
    assert(n * size <= total);
    assert(0 <= w * size && (w + 1) * size <= n * size && (w + 1) * size == w * size + size)
        by (nonlinear_arith)
        requires
            0 <= w < n,
            size >= 0,
    ;
    let start = w * size;
    let end = if w + 1 < n {
        (w + 1) * size
    } else {
        total
    };
    let len = end - start;
    let rest = ONE - test_frac;
    let p = len * rest;
    assert(0 <= p <= len * ONE && p == len * ONE - len * test_frac) by (nonlinear_arith)
        requires
            p == len * rest,
            rest == ONE - test_frac,
            0 <= rest <= ONE,
            len >= 0,
    ;
}

/// Walking is refused exactly where there are no windows, fewer than 240 candles, or fewer than
/// 120 in a window.
pub proof fn law_walk_is_refused_for_cause(total: int, n: int)
    requires
        total >= 0,
        n >= 0,
    ensures
        walk_refusal(total, n) is None <==> n > 0 && total >= 240 && total / n >= 120,
        walk_refusal(total, n) == Some(WalkError::NoWindows) <==> n == 0,
        walk_refusal(total, n) == Some(WalkError::TooFewCandles) <==> n > 0 && total < 240,
{
}

} // verus!
