//! Fetching a long history page by page.
use crate::candles::{interval_text, Interval};
use crate::features::Candle;
use crate::text::{int_string, int_text};
use vstd::prelude::*;

verus! {

/// The length of an interval in milliseconds.
pub open spec fn step_of(i: Interval) -> int {
    match i {
        Interval::OneMinute => 60_000,
        Interval::FiveMinutes => 300_000,
        Interval::OneHour => 3_600_000,
    }
}

/// The length of an interval in milliseconds.
pub fn interval_ms(interval: Interval) -> (ms: i64)
    ensures
        ms == step_of(interval),
{
    match interval {
        Interval::OneMinute => 60_000,
        Interval::FiveMinutes => 300_000,
        Interval::OneHour => 3_600_000,
    }
}

/// Whether there is a range to fetch.
pub fn range_ok(start_ms: i64, end_ms: i64) -> (r: bool)
    ensures
        r == (start_ms < end_ms),
{
    start_ms < end_ms
}

/// The address of one page.
pub open spec fn page_text(
    base_url: Seq<char>,
    symbol: Seq<char>,
    interval: Interval,
    cursor: i64,
    end_ms: i64,
) -> Seq<char> {
    base_url + "/api/v3/klines?symbol="@ + symbol + "&interval="@ + interval_text(interval)
        + "&startTime="@ + int_text(cursor as int) + "&endTime="@ + int_text(end_ms as int)
        + "&limit=1000"@
}

/// The address of one page: the candles from the cursor to the end, 1000 at most.
pub fn page_url(base_url: &str, symbol: &str, interval: Interval, cursor: i64, end_ms: i64) -> (s:
    String)
    ensures
        s@ == page_text(base_url@, symbol@, interval, cursor, end_ms),
{
    let mut s: String = String::from_str(base_url);
    s.append("/api/v3/klines?symbol=");
    s.append(symbol);
    s.append("&interval=");
    s.append(interval.as_str());
    s.append("&startTime=");
    s.append(int_string(cursor as i128).as_str());
    s.append("&endTime=");
    s.append(int_string(end_ms as i128).as_str());
    s.append("&limit=1000");
    s
}

/// Where the next page starts: one interval behind the last candle. There is none
/// where the page was empty, brought nothing new, or reached the end.
pub open spec fn cursor_after(
    cursor: i64,
    last_open_time: Option<i64>,
    interval: Interval,
    end_ms: i64,
) -> Option<i64> {
    match last_open_time {
        None => None,
        Some(t) => if t <= cursor || t + step_of(interval) >= end_ms {
            None
        } else {
            Some((t + step_of(interval)) as i64)
        },
    }
}

/// Decides where the next page starts, given the time of the last candle of the
/// page, if it had one.
pub fn next_cursor(cursor: i64, last_open_time: Option<i64>, interval: Interval, end_ms: i64) -> (r:
    Option<i64>)
    ensures
        r == cursor_after(cursor, last_open_time, interval, end_ms),
{
    match last_open_time {
        None => None,
        Some(t) => {
            if t <= cursor {
                return None;
            }
            let next: i128 = t as i128 + interval_ms(interval) as i128;
            if next >= end_ms as i128 {
                None
            } else {
                Some(next as i64)
            }
        },
    }
}

/// Every page starts behind the one before it, and before the end.
pub proof fn law_paging_makes_progress(
    cursor: i64,
    last_open_time: Option<i64>,
    interval: Interval,
    end_ms: i64,
)
    requires
        cursor_after(cursor, last_open_time, interval, end_ms) is Some,
    ensures
        cursor < cursor_after(cursor, last_open_time, interval, end_ms)->0 < end_ms,
{
}

/// Whether each candle opens later than the one before it.
pub open spec fn chronological(c: Seq<Candle>) -> bool {
    forall|i: int, j: int|
        0 <= i < j < c.len() ==> (#[trigger] c[i]).open_time < (#[trigger] c[j]).open_time
}

/// Whether the candle at `i` is the first one of its time.
pub open spec fn is_first(c: Seq<Candle>, i: int) -> bool {
    0 <= i < c.len() && forall|j: int|
        0 <= j < i ==> (#[trigger] c[j]).open_time != c[i].open_time
}

/// Whether `out` holds exactly the first candle of each time among the first `n`.
pub open spec fn holds_firsts(all: Seq<Candle>, n: int, out: Seq<Candle>) -> bool {
    &&& forall|i: int| 0 <= i < n && is_first(all, i) ==> out.contains(#[trigger] all[i])
    &&& forall|k: int|
        0 <= k < out.len() ==> exists|i: int|
            0 <= i < n && #[trigger] is_first(all, i) && all[i] == #[trigger] out[k]
}

/// Puts a candle into a chronological list, unless its time is taken.
fn insert_candle(out: &mut Vec<Candle>, c: Candle)
    requires
        chronological(old(out)@),
    ensures
        chronological(final(out)@),
        (exists|k: int| 0 <= k < old(out)@.len() && (#[trigger] old(out)@[k]).open_time
            == c.open_time) ==> final(out)@ == old(out)@,
        (forall|k: int| 0 <= k < old(out)@.len() ==> (#[trigger] old(out)@[k]).open_time
            != c.open_time) ==> exists|at: int|
            0 <= at <= old(out)@.len() && final(out)@ == #[trigger] old(out)@.insert(at, c),
{
    let mut at: usize = out.len();
    while at > 0 && out[at - 1].open_time > c.open_time
        invariant
            at <= out@.len(),
            out@ == old(out)@,
            chronological(out@),
            forall|k: int| at <= k < out@.len() ==> (#[trigger] out@[k]).open_time > c.open_time,
        decreases at,
    {
        at -= 1;
    }
    if at > 0 && out[at - 1].open_time == c.open_time {
        assert(old(out)@[at - 1].open_time == c.open_time);
        return;
    }
    proof {
        assert forall|k: int| 0 <= k < at implies (#[trigger] out@[k]).open_time < c.open_time by {
            if k < at - 1 {
                assert(out@[k].open_time < out@[at - 1].open_time);
            }
        }
    }
    out.insert(at, c);
    proof {
        let before = old(out)@;
        let after = out@;
        assert(after == before.insert(at as int, c));
        assert forall|i: int, j: int| 0 <= i < j < after.len() implies (#[trigger] after[i]).open_time
            < (#[trigger] after[j]).open_time by {
            let a = if i < at {
                before[i]
            } else if i == at {
                c
            } else {
                before[i - 1]
            };
            let b = if j < at {
                before[j]
            } else if j == at {
                c
            } else {
                before[j - 1]
            };
            assert(after[i] == a && after[j] == b);
            if i < at && j < at {
                assert(before[i].open_time < before[j].open_time);
            } else if i < at && j > at {
                assert(before[i].open_time < c.open_time);
                assert(before[j - 1].open_time > c.open_time);
            } else if i == at {
                assert(before[j - 1].open_time > c.open_time);
            } else if i > at {
                assert(before[i - 1].open_time < before[j - 1].open_time);
            }
        }
    }
}

/// Puts candles in chronological order. Of several with the same time, the first
/// one stays.
pub fn order_candles(all: &Vec<Candle>) -> (out: Vec<Candle>)
    ensures
        chronological(out@),
        holds_firsts(all@, all@.len() as int, out@),
{
    let mut out: Vec<Candle> = Vec::new();
    let mut n: usize = 0;
    while n < all.len()
        invariant
            n <= all@.len(),
            chronological(out@),
            holds_firsts(all@, n as int, out@),
        decreases all@.len() - n,
    {
        let c: Candle = all[n];
        let ghost before = out@;
        insert_candle(&mut out, c);
        proof {
            lemma_firsts_step(all@, n as int, before, out@, c);
        }
        n += 1;
    }
    out
}

/// One more candle keeps the list of the first ones.
proof fn lemma_firsts_step(all: Seq<Candle>, n: int, before: Seq<Candle>, after: Seq<Candle>, c: Candle)
    requires
        0 <= n < all.len(),
        c == all[n],
        holds_firsts(all, n, before),
        (exists|k: int| 0 <= k < before.len() && (#[trigger] before[k]).open_time == c.open_time)
            ==> after == before,
        (forall|k: int| 0 <= k < before.len() ==> (#[trigger] before[k]).open_time != c.open_time)
            ==> exists|at: int|
            0 <= at <= before.len() && after == #[trigger] before.insert(at, c),
    ensures
        holds_firsts(all, n + 1, after),
{
    if exists|k: int| 0 <= k < before.len() && (#[trigger] before[k]).open_time == c.open_time {
        let k = choose|k: int|
            0 <= k < before.len() && (#[trigger] before[k]).open_time == c.open_time;
        let i = choose|i: int|
            0 <= i < n && #[trigger] is_first(all, i) && all[i] == before[k];
        assert(all[i].open_time == all[n].open_time);
        assert(!is_first(all, n));
        assert forall|j: int| 0 <= j < after.len() implies exists|i: int|
            0 <= i < n + 1 && #[trigger] is_first(all, i) && all[i] == #[trigger] after[j] by {
            let i = choose|i: int|
                0 <= i < n && #[trigger] is_first(all, i) && all[i] == before[j];
            assert(is_first(all, i) && all[i] == after[j]);
        }
    } else {
        let at = choose|at: int|
            0 <= at <= before.len() && after == #[trigger] before.insert(at, c);
        assert(is_first(all, n)) by {
            assert forall|j: int| 0 <= j < n implies (#[trigger] all[j]).open_time
                != all[n].open_time by {
                if all[j].open_time == all[n].open_time {
                    let f = lemma_first_exists(all, j);
                    assert(before.contains(all[f]));
                    let k = choose|k: int| 0 <= k < before.len() && before[k] == all[f];
                    assert(before[k].open_time == c.open_time);
                }
            }
        }
        assert(after[at] == c);
        assert forall|i: int| 0 <= i < n + 1 && is_first(all, i) implies after.contains(
            #[trigger] all[i],
        ) by {
            if i < n {
                assert(before.contains(all[i]));
                let k = choose|k: int| 0 <= k < before.len() && before[k] == all[i];
                if k < at {
                    assert(after[k] == all[i]);
                } else {
                    assert(after[k + 1] == all[i]);
                }
            }
        }
        assert forall|j: int| 0 <= j < after.len() implies exists|i: int|
            0 <= i < n + 1 && #[trigger] is_first(all, i) && all[i] == #[trigger] after[j] by {
            if j == at {
                assert(is_first(all, n) && all[n] == after[j]);
            } else {
                let k = if j < at {
                    j
                } else {
                    j - 1
                };
                assert(after[j] == before[k]);
                let i = choose|i: int|
                    0 <= i < n && #[trigger] is_first(all, i) && all[i] == before[k];
                assert(is_first(all, i) && all[i] == after[j]);
            }
        }
    }
}

/// Every time that occurs has a first candle.
proof fn lemma_first_exists(all: Seq<Candle>, j: int) -> (f: int)
    requires
        0 <= j < all.len(),
    ensures
        0 <= f <= j,
        is_first(all, f),
        all[f].open_time == all[j].open_time,
    decreases j,
{
    if is_first(all, j) {
        j
    } else {
        let k = choose|k: int| 0 <= k < j && (#[trigger] all[k]).open_time == all[j].open_time;
        lemma_first_exists(all, k)
    }
}

/// Ordering a list that is chronological already adds nothing and drops nothing.
pub proof fn law_ordering_keeps_a_chronological_list(c: Seq<Candle>, out: Seq<Candle>)
    requires
        chronological(c),
        chronological(out),
        holds_firsts(c, c.len() as int, out),
    ensures
        forall|x: Candle| #[trigger] out.contains(x) <==> c.contains(x),
{
    assert forall|x: Candle| #[trigger] out.contains(x) <==> c.contains(x) by {
        if out.contains(x) {
            let k = choose|k: int| 0 <= k < out.len() && out[k] == x;
            let i = choose|i: int|
                0 <= i < c.len() && #[trigger] is_first(c, i) && c[i] == out[k];
            assert(c[i] == x);
        }
        if c.contains(x) {
            let i = choose|i: int| 0 <= i < c.len() && c[i] == x;
            assert(is_first(c, i)) by {
                assert forall|j: int| 0 <= j < i implies (#[trigger] c[j]).open_time
                    != c[i].open_time by {
                    assert(c[j].open_time < c[i].open_time);
                }
            }
            assert(out.contains(c[i]));
        }
    }
}

/// How many days of history are fetched: the wish, 90 without one, and one to 720
/// in any case.
pub fn history_days(wish: Option<i64>) -> (d: i64)
    ensures
        d == (if wish is None {
            90
        } else {
            crate::fixed::clamped(wish->0 as int, 1, 720)
        }),
{
    match wish {
        None => 90,
        Some(n) => if n < 1 {
            1
        } else if n > 720 {
            720
        } else {
            n
        },
    }
}

/// Whether the days asked for on the command line are acceptable.
pub fn days_ok(days: i64) -> (r: bool)
    ensures
        r == (1 <= days <= 720),
{
    days > 0 && days <= 720
}

/// The start of a history of some days that ends at `end_ms`.
pub fn history_start(end_ms: i64, days: i64) -> (start: i64)
    requires
        1 <= days <= 720,
        end_ms >= 0,
    ensures
        start == end_ms - days * 86_400_000,
        end_ms - start == days * (24 * 60 * 60 * 1_000),
{
    end_ms - days * 86_400_000
}

/// The next page starts one interval after the last candle of this one; there is none after an
/// empty page, one that brought nothing new, or one that reaches the end.
pub proof fn law_next_page_starts_after_the_last(
    cursor: i64,
    last: i64,
    interval: Interval,
    end_ms: i64,
)
    requires
        last < i64::MAX - 3_600_000,
    ensures
        ({
            let step = if interval == Interval::OneMinute {
                60_000int
            } else if interval == Interval::FiveMinutes {
                5int * 60_000
            } else {
                60int * 60_000
            };
            let next = cursor_after(cursor, Some(last), interval, end_ms);
            &&& next is Some <==> last > cursor && last + step < end_ms
            &&& next is Some ==> next->0 == last + step
        }),
        cursor_after(cursor, None, interval, end_ms) is None,
{
}

} // verus!
