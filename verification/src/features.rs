//! Market features: candles and the indicators computed from them.
use crate::fixed::{
    abs_fixed, abs_of, bounded, div_fixed, div_round, lemma_round_div_exact,
    lemma_round_div_error, lemma_round_div_monotone, max_fixed, max_of, quotient, round_div, saturate,
    saturated, within, LIMIT, ONE,
};
use crate::text::{nat_text, u64_string};
use vstd::prelude::*;

verus! {

/// One bar of the price history.
#[derive(Clone, Copy, Debug, PartialEq, Eq, Structural)]
pub struct Candle {
    pub open_time: i64,
    pub open: i128,
    pub high: i128,
    pub low: i128,
    pub close: i128,
    pub volume: i128,
}

/// The largest price that the indicators accept: one billion.
pub const PRICE_MAX: i128 = 1_000_000_000_000_000_000_000;

/// The largest distance between two prices.
pub const RANGE_MAX: i128 = 2_000_000_000_000_000_000_000;

/// The longest period that the averages accept.
pub const PERIOD_MAX: usize = 1_000_000_000;

/// The longest period that the strength index accepts.
pub const RSI_PERIOD_MAX: usize = 2_000;

/// Whether a price is within the range of the indicators.
pub open spec fn price_ok(p: int) -> bool {
    -PRICE_MAX <= p <= PRICE_MAX
}

/// Whether every price of a series is within the range of the indicators.
pub open spec fn series_ok(v: Seq<i128>) -> bool {
    forall|i: int| 0 <= i < v.len() ==> price_ok(#[trigger] v[i] as int)
}

impl Candle {
    /// The prices of the candle are within the range of the indicators.
    pub open spec fn ok(self) -> bool {
        price_ok(self.high as int) && price_ok(self.low as int) && price_ok(self.close as int)
    }
}

/// Whether every candle is within the range of the indicators.
pub open spec fn candles_ok(c: Seq<Candle>) -> bool {
    forall|i: int| 0 <= i < c.len() ==> (#[trigger] c[i]).ok()
}

/// An indicator, as it is named in messages.
#[derive(Clone, Copy, Debug, PartialEq, Eq, Structural)]
pub enum Indicator {
    Ema,
    Atr,
    Donchian,
    Sma,
    Rsi,
    /// The realised volatility.
    Vol,
    /// The deviation of the last value.
    ZScore,
}

/// Why no features could be computed.
#[derive(Clone, Copy, Debug, PartialEq, Eq, Structural)]
pub enum FeatureError {
    /// The period of an indicator was zero.
    ZeroPeriod { indicator: Indicator },
    /// There were fewer values than an indicator needs.
    NotEnough { indicator: Indicator, period: usize, have: usize, need: usize },
    /// There was no candle of five minutes.
    No5mCandles,
    /// There was no candle of one hour.
    No1hCandles,
    /// A close has no logarithm: it is not above zero.
    BadClose,
}

/// The words of an indicator: its name, and what it is computed from.
pub open spec fn indicator_text(i: Indicator) -> (Seq<char>, Seq<char>) {
    match i {
        Indicator::Ema => ("EMA"@, "data"@),
        Indicator::Atr => ("ATR"@, "candles"@),
        Indicator::Donchian => ("Donchian"@, "candles"@),
        Indicator::Sma => ("SMA"@, "data"@),
        Indicator::Rsi => ("RSI"@, "closes"@),
        Indicator::Vol => ("vol"@, "closes"@),
        Indicator::ZScore => ("z-score"@, "values"@),
    }
}

fn indicator_words(i: Indicator) -> (r: (&'static str, &'static str))
    ensures
        r.0@ == indicator_text(i).0,
        r.1@ == indicator_text(i).1,
{
    match i {
        Indicator::Ema => ("EMA", "data"),
        Indicator::Atr => ("ATR", "candles"),
        Indicator::Donchian => ("Donchian", "candles"),
        Indicator::Sma => ("SMA", "data"),
        Indicator::Rsi => ("RSI", "closes"),
        Indicator::Vol => ("vol", "closes"),
        Indicator::ZScore => ("z-score", "values"),
    }
}

/// An error in words.
pub open spec fn error_text(e: FeatureError) -> Seq<char> {
    match e {
        FeatureError::ZeroPeriod { indicator } => match indicator {
            Indicator::Donchian => "Donchian lookback must be > 0"@,
            Indicator::Vol => "Vol lookback must be > 0"@,
            Indicator::ZScore => "Z-score lookback must be > 0"@,
            _ => indicator_text(indicator).0 + " period must be > 0"@,
        },
        FeatureError::NotEnough { indicator, period, have, need } => "Not enough "@
            + indicator_text(indicator).1 + " for "@ + indicator_text(indicator).0 + nat_text(
            period as nat,
        ) + ": have "@ + nat_text(have as nat) + ", need "@ + nat_text(need as nat),
        FeatureError::No5mCandles => "No 5m candles"@,
        FeatureError::No1hCandles => "No 1h candles"@,
        FeatureError::BadClose => "Bad close value for log return"@,
    }
}

impl FeatureError {
    /// The error in words.
    pub fn message(self) -> (s: String)
        ensures
            s@ == error_text(self),
    {
        match self {
            FeatureError::ZeroPeriod { indicator } => {
                if indicator == Indicator::Donchian {
                    return String::from_str("Donchian lookback must be > 0");
                }
                if indicator == Indicator::Vol {
                    return String::from_str("Vol lookback must be > 0");
                }
                if indicator == Indicator::ZScore {
                    return String::from_str("Z-score lookback must be > 0");
                }
                let mut s: String = String::from_str(indicator_words(indicator).0);
                s.append(" period must be > 0");
                s
            },
            FeatureError::NotEnough { indicator, period, have, need } => {
                let words: (&'static str, &'static str) = indicator_words(indicator);
                let mut s: String = String::from_str("Not enough ");
                s.append(words.1);
                s.append(" for ");
                s.append(words.0);
                s.append(u64_string(period as u64).as_str());
                s.append(": have ");
                s.append(u64_string(have as u64).as_str());
                s.append(", need ");
                s.append(u64_string(need as u64).as_str());
                s
            },
            FeatureError::No5mCandles => String::from_str("No 5m candles"),
            FeatureError::No1hCandles => String::from_str("No 1h candles"),
            FeatureError::BadClose => String::from_str("Bad close value for log return"),
        }
    }
}

/// The sum of `v[from..to]`.
pub open spec fn sum_of(v: Seq<i128>, from: int, to: int) -> int
    decreases to - from,
{
    if to <= from {
        0
    } else {
        sum_of(v, from, to - 1) + v[to - 1]
    }
}

proof fn lemma_sum_bound(v: Seq<i128>, from: int, to: int, top: int)
    requires
        0 <= from <= to <= v.len(),
        forall|i: int| from <= i < to ==> -top <= #[trigger] v[i] <= top,
    ensures
        -(to - from) * top <= sum_of(v, from, to) <= (to - from) * top,
    decreases to - from,
{
    if from < to {
        lemma_sum_bound(v, from, to - 1, top);
        assert((to - from) * top == (to - 1 - from) * top + top) by (nonlinear_arith);
        assert(-(to - from) * top == -(to - 1 - from) * top - top) by (nonlinear_arith);
    } else {
        assert((to - from) * top == 0) by (nonlinear_arith)
            requires
                to == from,
        ;
        assert(-(to - from) * top == 0) by (nonlinear_arith)
            requires
                to == from,
        ;
    }
}

/// The sum of `v[from..to]`.
fn sum_range(v: &Vec<i128>, from: usize, to: usize, top: i128) -> (s: i128)
    requires
        from <= to <= v@.len(),
        to - from <= PERIOD_MAX,
        0 <= top <= RANGE_MAX,
        forall|i: int| from <= i < to ==> -top <= #[trigger] v@[i] <= top,
    ensures
        s == sum_of(v@, from as int, to as int),
        -(to - from) * top <= s <= (to - from) * top,
{
    let mut s: i128 = 0;
    let mut i: usize = from;
    while i < to
        invariant
            from <= i <= to <= v@.len(),
            to - from <= PERIOD_MAX,
            0 <= top <= RANGE_MAX,
            forall|k: int| from <= k < to ==> -top <= #[trigger] v@[k] <= top,
            s == sum_of(v@, from as int, i as int),
        decreases to - i,
    {
        proof {
            lemma_sum_bound(v@, from as int, i as int, top as int);
            assert((i - from) * top <= PERIOD_MAX * RANGE_MAX) by (nonlinear_arith)
                requires
                    0 <= i - from <= PERIOD_MAX,
                    0 <= top <= RANGE_MAX,
            ;
            assert(-(i - from) * top == -((i - from) * top)) by (nonlinear_arith);
        }
        s = s + v[i];
        i += 1;
    }
    proof {
        lemma_sum_bound(v@, from as int, to as int, top as int);
    }
    s
}

/// A weighted mean of bounded numbers, rounded, is bounded as they are.
proof fn lemma_mean_bound(n: int, weight: int, top: int)
    requires
        weight > 0,
        -weight * top <= n <= weight * top,
    ensures
        -top <= round_div(n, weight) <= top,
{
    lemma_round_div_monotone(n, weight * top, weight);
    lemma_round_div_monotone(-weight * top, n, weight);
    assert(weight * top == top * weight) by (nonlinear_arith);
    assert(-weight * top == (-top) * weight) by (nonlinear_arith);
    lemma_round_div_exact(top, weight);
    lemma_round_div_exact(-top, weight);
}

/// The mean of the first `period` values.
pub open spec fn first_mean(v: Seq<i128>, period: int) -> int {
    round_div(sum_of(v, 0, period), period)
}

/// The exponential moving average over the first `n` values: it starts as the
/// mean of the first `period` values and then gives each new value the weight
/// `2 / (period + 1)`.
pub open spec fn ema(v: Seq<i128>, period: int, n: int) -> int
    decreases n,
{
    if n <= period || n <= 0 {
        first_mean(v, period)
    } else {
        round_div(2 * v[n - 1] + (period - 1) * ema(v, period, n - 1), period + 1)
    }
}

/// The last exponential moving average of a series.
pub fn ema_last(values: &Vec<i128>, period: usize) -> (r: Result<i128, FeatureError>)
    requires
        period <= PERIOD_MAX,
        series_ok(values@),
    ensures
        match r {
            Ok(e) => 0 < period <= values@.len() && e == ema(
                values@,
                period as int,
                values@.len() as int,
            ) && price_ok(e as int),
            Err(x) => x == (if period == 0 {
                FeatureError::ZeroPeriod { indicator: Indicator::Ema }
            } else {
                FeatureError::NotEnough {
                    indicator: Indicator::Ema,
                    period,
                    have: values@.len() as usize,
                    need: period,
                }
            }) && (period == 0 || values@.len() < period),
        },
{
    if period == 0 {
        return Err(FeatureError::ZeroPeriod { indicator: Indicator::Ema });
    }
    if values.len() < period {
        return Err(
            FeatureError::NotEnough {
                indicator: Indicator::Ema,
                period,
                have: values.len(),
                need: period,
            },
        );
    }
    let p: i128 = period as i128;
    let total: i128 = sum_range(values, 0, period, PRICE_MAX);
    proof {
        lemma_mean_bound(total as int, p as int, PRICE_MAX as int);
    }
    let mut e: i128 = div_round(total, p);
    let mut i: usize = period;
    while i < values.len()
        invariant
            0 < period <= PERIOD_MAX,
            p == period,
            series_ok(values@),
            period <= i <= values@.len(),
            e == ema(values@, period as int, i as int),
            price_ok(e as int),
        decreases values@.len() - i,
    {
        proof {
            assert(price_ok(values@[i as int] as int));
            assert(-(p - 1) * PRICE_MAX <= (p - 1) * e <= (p - 1) * PRICE_MAX) by (nonlinear_arith)
                requires
                    p >= 1,
                    -PRICE_MAX <= e <= PRICE_MAX,
            ;
            assert((p - 1) * PRICE_MAX + 2 * PRICE_MAX == (p + 1) * PRICE_MAX) by (nonlinear_arith);
            assert(-(p - 1) * PRICE_MAX - 2 * PRICE_MAX == -(p + 1) * PRICE_MAX) by (nonlinear_arith);
            lemma_mean_bound(
                2 * values@[i as int] + (p - 1) * e,
                p + 1,
                PRICE_MAX as int,
            );
        }
        e = div_round(2 * values[i] + (p - 1) * e, p + 1);
        i += 1;
    }
    Ok(e)
}

/// The true range of a candle after one that closed at `prev_close`.
pub open spec fn true_range(c: Candle, prev_close: int) -> int {
    max_of(max_of(c.high - c.low, abs_of(c.high - prev_close)), abs_of(c.low - prev_close))
}

/// The true ranges of all candles but the first.
pub open spec fn true_ranges(c: Seq<Candle>) -> Seq<i128> {
    Seq::new(
        (c.len() - 1) as nat,
        |i: int| true_range(c[i + 1], c[i].close as int) as i128,
    )
}

/// The average true range with Wilder's smoothing over the first `n` ranges: it
/// starts as the mean of the first `period` ranges and then gives each new range
/// the weight `1 / period`.
pub open spec fn wilder(t: Seq<i128>, period: int, n: int) -> int
    decreases n,
{
    if n <= period || n <= 0 {
        first_mean(t, period)
    } else {
        round_div(wilder(t, period, n - 1) * (period - 1) + t[n - 1], period)
    }
}

/// The last average true range of a series of candles.
pub fn atr14_last(candles: &Vec<Candle>, period: usize) -> (r: Result<i128, FeatureError>)
    requires
        period <= PERIOD_MAX,
        candles_ok(candles@),
    ensures
        match r {
            Ok(a) => 0 < period < candles@.len() && a == wilder(
                true_ranges(candles@),
                period as int,
                candles@.len() - 1,
            ) && -RANGE_MAX <= a <= RANGE_MAX,
            Err(x) => x == (if period == 0 {
                FeatureError::ZeroPeriod { indicator: Indicator::Atr }
            } else {
                FeatureError::NotEnough {
                    indicator: Indicator::Atr,
                    period,
                    have: candles@.len() as usize,
                    need: (period + 1) as usize,
                }
            }) && (period == 0 || candles@.len() < period + 1),
        },
{
    if period == 0 {
        return Err(FeatureError::ZeroPeriod { indicator: Indicator::Atr });
    }
    if candles.len() < period + 1 {
        return Err(
            FeatureError::NotEnough {
                indicator: Indicator::Atr,
                period,
                have: candles.len(),
                need: period + 1,
            },
        );
    }
    let ghost ranges = true_ranges(candles@);
    let mut trs: Vec<i128> = Vec::new();
    let mut i: usize = 1;
    while i < candles.len()
        invariant
            candles_ok(candles@),
            1 <= i <= candles@.len(),
            ranges == true_ranges(candles@),
            trs@ == ranges.take(i - 1),
            forall|k: int| 0 <= k < i - 1 ==> -RANGE_MAX <= #[trigger] ranges[k] <= RANGE_MAX,
        decreases candles@.len() - i,
    {
        let c: Candle = candles[i];
        let prev_close: i128 = candles[i - 1].close;
        assert(candles@[i as int].ok() && candles@[i - 1].ok());
        let hl: i128 = c.high - c.low;
        let hc: i128 = abs_fixed(c.high - prev_close);
        let lc: i128 = abs_fixed(c.low - prev_close);
        let tr: i128 = max_fixed(max_fixed(hl, hc), lc);
        assert(tr == ranges[i - 1]);
        trs.push(tr);
        i += 1;
        assert(trs@ =~= ranges.take(i - 1));
    }
    assert(trs@ =~= ranges);
    let p: i128 = period as i128;
    let top: i128 = RANGE_MAX;
    let total: i128 = sum_range(&trs, 0, period, top);
    proof {
        lemma_mean_bound(total as int, p as int, top as int);
    }
    let mut atr: i128 = div_round(total, p);
    let mut n: usize = period;
    while n < trs.len()
        invariant
            0 < period <= PERIOD_MAX,
            p == period,
            top == RANGE_MAX,
            forall|k: int| 0 <= k < trs@.len() ==> -top <= #[trigger] trs@[k] <= top,
            period <= n <= trs@.len(),
            atr == wilder(trs@, period as int, n as int),
            -top <= atr <= top,
        decreases trs@.len() - n,
    {
        proof {
            assert(-top <= trs@[n as int] <= top);
            assert(-(p - 1) * top <= atr * (p - 1) <= (p - 1) * top) by (nonlinear_arith)
                requires
                    p >= 1,
                    -top <= atr <= top,
            ;
            assert((p - 1) * top <= PERIOD_MAX * RANGE_MAX) by (nonlinear_arith)
                requires
                    1 <= p <= PERIOD_MAX,
                    top == RANGE_MAX,
            ;
            assert(-(p - 1) * top == -((p - 1) * top)) by (nonlinear_arith);
            assert((p - 1) * top + top == p * top) by (nonlinear_arith);
            assert(-(p - 1) * top - top == -p * top) by (nonlinear_arith);
            lemma_mean_bound(atr * (p - 1) + trs@[n as int], p as int, top as int);
        }
        atr = div_round(atr * (p - 1) + trs[n], p);
        n += 1;
    }
    Ok(atr)
}

/// The highest high and the lowest low of `c[from..to]`.
pub open spec fn is_channel(c: Seq<Candle>, from: int, to: int, high: int, low: int) -> bool {
    &&& forall|i: int| from <= i < to ==> (#[trigger] c[i]).high <= high && low <= c[i].low
    &&& exists|i: int| from <= i < to && (#[trigger] c[i]).high == high
    &&& exists|i: int| from <= i < to && (#[trigger] c[i]).low == low
}

/// The highest high and the lowest low of the `lookback` candles before the last
/// one. The last candle is left out, so that it can break out of the channel.
pub fn donchian_high_low_prev(candles: &Vec<Candle>, lookback: usize) -> (r: Result<
    (i128, i128),
    FeatureError,
>)
    ensures
        match r {
            Ok(t) => 0 < lookback < candles@.len() && is_channel(
                candles@,
                candles@.len() - 1 - lookback,
                candles@.len() - 1,
                t.0 as int,
                t.1 as int,
            ),
            Err(x) => x == (if lookback == 0 {
                FeatureError::ZeroPeriod { indicator: Indicator::Donchian }
            } else {
                FeatureError::NotEnough {
                    indicator: Indicator::Donchian,
                    period: lookback,
                    have: candles@.len() as usize,
                    need: (if lookback == usize::MAX {
                        usize::MAX
                    } else {
                        (lookback + 1) as usize
                    }),
                }
            }) && (lookback == 0 || candles@.len() < lookback + 1),
        },
{
    if lookback == 0 {
        return Err(FeatureError::ZeroPeriod { indicator: Indicator::Donchian });
    }
    if candles.len() <= lookback {
        return Err(
            FeatureError::NotEnough {
                indicator: Indicator::Donchian,
                period: lookback,
                have: candles.len(),
                need: lookback.saturating_add(1),
            },
        );
    }
    let end: usize = candles.len() - 1;
    let start: usize = end - lookback;
    let mut high: i128 = candles[start].high;
    let mut low: i128 = candles[start].low;
    let mut i: usize = start + 1;
    while i < end
        invariant
            start < i <= end < candles@.len(),
            is_channel(candles@, start as int, i as int, high as int, low as int),
        decreases end - i,
    {
        let c: Candle = candles[i];
        if c.high > high {
            high = c.high;
        }
        if c.low < low {
            low = c.low;
        }
        assert(candles@[i as int] == c);
        i += 1;
    }
    Ok((high, low))
}

/// A channel has one highest high and one lowest low.
pub proof fn law_channel_unique(c: Seq<Candle>, from: int, to: int, h1: int, l1: int, h2: int, l2: int)
    requires
        is_channel(c, from, to, h1, l1),
        is_channel(c, from, to, h2, l2),
    ensures
        h1 == h2,
        l1 == l2,
{
}

/// The mean of the last `period` values.
pub fn sma_last(values: &Vec<i128>, period: usize) -> (r: Result<i128, FeatureError>)
    requires
        period <= PERIOD_MAX,
        series_ok(values@),
    ensures
        match r {
            Ok(m) => 0 < period <= values@.len() && m == round_div(
                sum_of(values@, values@.len() - period, values@.len() as int),
                period as int,
            ) && price_ok(m as int),
            Err(x) => x == (if period == 0 {
                FeatureError::ZeroPeriod { indicator: Indicator::Sma }
            } else {
                FeatureError::NotEnough {
                    indicator: Indicator::Sma,
                    period,
                    have: values@.len() as usize,
                    need: period,
                }
            }) && (period == 0 || values@.len() < period),
        },
{
    if period == 0 {
        return Err(FeatureError::ZeroPeriod { indicator: Indicator::Sma });
    }
    if values.len() < period {
        return Err(
            FeatureError::NotEnough {
                indicator: Indicator::Sma,
                period,
                have: values.len(),
                need: period,
            },
        );
    }
    let start: usize = values.len() - period;
    let total: i128 = sum_range(values, start, values.len(), PRICE_MAX);
    proof {
        lemma_mean_bound(total as int, period as int, PRICE_MAX as int);
    }
    Ok(div_round(total, period as i128))
}

/// The sum of the rises in `v[from..to]`, each value against the one before it.
pub open spec fn rises(v: Seq<i128>, from: int, to: int) -> int
    decreases to - from,
{
    if to <= from + 1 {
        0
    } else {
        rises(v, from, to - 1) + max_of(v[to - 1] - v[to - 2], 0)
    }
}

/// The sum of the falls in `v[from..to]`, each value against the one before it.
pub open spec fn falls(v: Seq<i128>, from: int, to: int) -> int
    decreases to - from,
{
    if to <= from + 1 {
        0
    } else {
        falls(v, from, to - 1) + max_of(v[to - 2] - v[to - 1], 0)
    }
}

/// The relative strength index of rises against falls, `100 - 100 / (1 + rise /
/// fall)`. Falls of no more than `10^-12` on average count as none.
pub open spec fn strength_index(rise: int, fall: int, period: int) -> int {
    if fall <= period {
        100 * ONE as int
    } else {
        100 * ONE - round_div(100 * ONE * ONE, ONE + quotient(rise, fall))
    }
}

/// The relative strength index over the last `period` changes.
pub fn rsi_last(closes: &Vec<i128>, period: usize) -> (r: Result<i128, FeatureError>)
    requires
        period <= RSI_PERIOD_MAX,
        series_ok(closes@),
    ensures
        match r {
            Ok(x) => 0 < period < closes@.len() && ({
                let n = closes@.len() as int;
                x == strength_index(
                    rises(closes@, n - period - 1, n),
                    falls(closes@, n - period - 1, n),
                    period as int,
                )
            }) && 0 <= x <= 100 * ONE,
            Err(x) => x == (if period == 0 {
                FeatureError::ZeroPeriod { indicator: Indicator::Rsi }
            } else {
                FeatureError::NotEnough {
                    indicator: Indicator::Rsi,
                    period,
                    have: closes@.len() as usize,
                    need: (period + 1) as usize,
                }
            }) && (period == 0 || closes@.len() < period + 1),
        },
{
    if period == 0 {
        return Err(FeatureError::ZeroPeriod { indicator: Indicator::Rsi });
    }
    if closes.len() < period + 1 {
        return Err(
            FeatureError::NotEnough {
                indicator: Indicator::Rsi,
                period,
                have: closes.len(),
                need: period + 1,
            },
        );
    }
    let start: usize = closes.len() - (period + 1);
    let mut gain: i128 = 0;
    let mut loss: i128 = 0;
    let mut i: usize = start + 1;
    while i < closes.len()
        invariant
            series_ok(closes@),
            0 < period <= RSI_PERIOD_MAX,
            start + period + 1 == closes@.len(),
            start < i <= closes@.len(),
            gain == rises(closes@, start as int, i as int),
            loss == falls(closes@, start as int, i as int),
            0 <= gain <= (i - start - 1) * RANGE_MAX,
            0 <= loss <= (i - start - 1) * RANGE_MAX,
        decreases closes@.len() - i,
    {
        assert(price_ok(closes@[i as int] as int) && price_ok(closes@[i - 1] as int));
        let d: i128 = closes[i] - closes[i - 1];
        if d >= 0 {
            gain = gain + d;
        } else {
            loss = loss + (-d);
        }
        i += 1;
    }
    if loss <= period as i128 {
        return Ok(100 * ONE);
    }
    let rs: i128 = div_fixed(gain, loss);
    proof {
        crate::fixed::lemma_round_div_error(gain * ONE, loss as int);
        lemma_round_div_monotone(0, gain * ONE, loss as int);
        lemma_round_div_exact(0, loss as int);
        assert(gain * ONE <= (gain * ONE) * loss) by (nonlinear_arith)
            requires
                gain >= 0,
                loss >= 1,
        ;
        lemma_round_div_monotone(gain * ONE, (gain * ONE) * loss, loss as int);
        lemma_round_div_exact(gain * ONE, loss as int);
        let w = ONE + rs as int;
        lemma_round_div_monotone(0, 100 * ONE * ONE, w);
        lemma_round_div_exact(0, w);
        lemma_round_div_monotone(100 * ONE * ONE, (100 * ONE) * w, w);
        lemma_round_div_exact(100 * ONE as int, w);
    }
    Ok(100 * ONE - div_round(100 * ONE * ONE, ONE + rs))
}

/// What the market looks like at one moment.
#[derive(Clone, Copy, Debug, PartialEq, Eq, Structural)]
pub struct Features {
    pub ema20_1h: i128,
    pub ema50_1h: i128,
    pub ema200_1h: i128,
    pub ema20_5m: i128,
    pub ema50_5m: i128,
    pub atr14_5m: i128,
    pub atr14_1m: i128,
    /// The 14-bar average true range over the 50-bar one, on five minutes.
    pub atr_ratio_5m: i128,
    pub bb_mid20_5m: i128,
    pub bb_upper_5m: i128,
    pub bb_lower_5m: i128,
    pub bb_width_5m: i128,
    pub rsi14_5m: i128,
    pub rsi14_1m: i128,
    pub donchian_high20_5m: i128,
    pub donchian_low20_5m: i128,
    pub rv_short: i128,
    pub rv_long: i128,
    pub volume_z: i128,
    pub ema20_1m: i128,
    pub velocity_1m: i128,
    pub velocity_5m: i128,
    pub last_close_1m: i128,
    pub last_close_5m: i128,
    pub last_close_1h: i128,
}

impl Features {
    /// Every feature is within the range of the arithmetic.
    pub open spec fn ok(self) -> bool {
        &&& bounded(self.ema20_1h as int)
        &&& bounded(self.ema50_1h as int)
        &&& bounded(self.ema200_1h as int)
        &&& bounded(self.ema20_5m as int)
        &&& bounded(self.ema50_5m as int)
        &&& bounded(self.atr14_5m as int)
        &&& bounded(self.atr14_1m as int)
        &&& bounded(self.atr_ratio_5m as int)
        &&& bounded(self.bb_mid20_5m as int)
        &&& bounded(self.bb_upper_5m as int)
        &&& bounded(self.bb_lower_5m as int)
        &&& bounded(self.bb_width_5m as int)
        &&& bounded(self.rsi14_5m as int)
        &&& bounded(self.rsi14_1m as int)
        &&& bounded(self.donchian_high20_5m as int)
        &&& bounded(self.donchian_low20_5m as int)
        &&& bounded(self.rv_short as int)
        &&& bounded(self.rv_long as int)
        &&& bounded(self.volume_z as int)
        &&& bounded(self.ema20_1m as int)
        &&& bounded(self.velocity_1m as int)
        &&& bounded(self.velocity_5m as int)
        &&& bounded(self.last_close_1m as int)
        &&& bounded(self.last_close_5m as int)
        &&& bounded(self.last_close_1h as int)
    }

    /// Whether every feature is within the range of the arithmetic.
    pub fn in_range(&self) -> (r: bool)
        ensures
            r == self.ok(),
    {
        within(self.ema20_1h)
            && within(self.ema50_1h)
            && within(self.ema200_1h)
            && within(self.ema20_5m)
            && within(self.ema50_5m)
            && within(self.atr14_5m)
            && within(self.atr14_1m)
            && within(self.atr_ratio_5m)
            && within(self.bb_mid20_5m)
            && within(self.bb_upper_5m)
            && within(self.bb_lower_5m)
            && within(self.bb_width_5m)
            && within(self.rsi14_5m)
            && within(self.rsi14_1m)
            && within(self.donchian_high20_5m)
            && within(self.donchian_low20_5m)
            && within(self.rv_short)
            && within(self.rv_long)
            && within(self.volume_z)
            && within(self.ema20_1m)
            && within(self.velocity_1m)
            && within(self.velocity_5m)
            && within(self.last_close_1m)
            && within(self.last_close_5m)
            && within(self.last_close_1h)
    }
}

/// The closes of a series of candles.
pub open spec fn closes_of(c: Seq<Candle>) -> Seq<i128> {
    Seq::new(c.len(), |i: int| c[i].close)
}

/// The closes of a series of candles.
pub fn closes(candles: &Vec<Candle>) -> (v: Vec<i128>)
    ensures
        v@ == closes_of(candles@),
{
    let mut v: Vec<i128> = Vec::new();
    let mut i: usize = 0;
    while i < candles.len()
        invariant
            i <= candles@.len(),
            v@ == closes_of(candles@).take(i as int),
        decreases candles@.len() - i,
    {
        v.push(candles[i].close);
        i += 1;
        assert(v@ =~= closes_of(candles@).take(i as int));
    }
    assert(v@ =~= closes_of(candles@));
    v
}

/// The volumes of a series of candles.
pub fn volumes(candles: &Vec<Candle>) -> (v: Vec<i128>)
    ensures
        v@.len() == candles@.len(),
        forall|i: int| 0 <= i < v@.len() ==> v@[i] == (#[trigger] candles@[i]).volume,
{
    let mut v: Vec<i128> = Vec::new();
    let mut i: usize = 0;
    while i < candles.len()
        invariant
            i <= candles@.len(),
            v@.len() == i,
            forall|k: int| 0 <= k < i ==> v@[k] == (#[trigger] candles@[k]).volume,
        decreases candles@.len() - i,
    {
        v.push(candles[i].volume);
        i += 1;
    }
    v
}

/// The measures that need roots and logarithms: the realised volatility over 20 and
/// over 100 bars, the deviation of the last volume, and the standard deviation of
/// the last 20 closes.
#[derive(Clone, Copy, Debug, PartialEq, Eq, Structural)]
pub struct Measures {
    pub rv_short: i128,
    pub rv_long: i128,
    pub volume_z: i128,
    pub close_std20: i128,
}

impl Measures {
    /// Every measure is within the range of the arithmetic.
    pub open spec fn ok(self) -> bool {
        bounded(self.rv_short as int) && bounded(self.rv_long as int) && bounded(
            self.volume_z as int,
        ) && price_ok(self.close_std20 as int)
    }

    /// Whether every measure is within the range of the arithmetic.
    pub fn in_range(&self) -> (r: bool)
        ensures
            r == self.ok(),
    {
        within(self.rv_short) && within(self.rv_long) && within(self.volume_z) && -PRICE_MAX
            <= self.close_std20 && self.close_std20 <= PRICE_MAX
    }
}

/// How far the last close has moved from the one three bars before it, as a
/// fraction of that one.
pub open spec fn velocity(closes: Seq<i128>) -> int {
    let n = closes.len() as int;
    if closes[n - 4] <= 0 {
        0
    } else {
        saturated(quotient(closes[n - 1] - closes[n - 4], closes[n - 4] as int))
    }
}

fn velocity_of(closes: &Vec<i128>) -> (v: i128)
    requires
        series_ok(closes@),
        closes@.len() >= 4,
    ensures
        v == velocity(closes@),
        bounded(v as int),
{
    let n: usize = closes.len();
    let from: i128 = closes[n - 4];
    assert(price_ok(closes@[n - 4] as int) && price_ok(closes@[n - 1] as int));
    if from <= 0 {
        0
    } else {
        saturate(div_fixed(closes[n - 1] - from, from))
    }
}

/// Whether the last `n` closes are above zero, so that they have logarithms.
pub open spec fn closes_positive(closes: Seq<i128>, n: int) -> bool {
    forall|i: int| closes.len() - n <= i < closes.len() ==> #[trigger] closes[i] > 0
}

/// Why there is no realised volatility over a lookback, if there is none: it needs one
/// close more than that, all above zero.
pub open spec fn vol_error(closes: Seq<i128>, lookback: int) -> Option<FeatureError> {
    if lookback == 0 {
        Some(FeatureError::ZeroPeriod { indicator: Indicator::Vol })
    } else if closes.len() < lookback + 1 {
        Some(
            FeatureError::NotEnough {
                indicator: Indicator::Vol,
                period: lookback as usize,
                have: closes.len() as usize,
                need: (lookback + 1) as usize,
            },
        )
    } else if !closes_positive(closes, lookback + 1) {
        Some(FeatureError::BadClose)
    } else {
        None
    }
}

/// The closes that the realised volatility over a lookback is taken from.
pub fn vol_closes(closes: &Vec<i128>, lookback: usize) -> (r: Result<Vec<i128>, FeatureError>)
    requires
        lookback <= PERIOD_MAX,
    ensures
        match r {
            Ok(v) => vol_error(closes@, lookback as int) is None && v@ == closes@.skip(
                closes@.len() - (lookback + 1),
            ),
            Err(e) => vol_error(closes@, lookback as int) == Some(e),
        },
{
    if lookback == 0 {
        return Err(FeatureError::ZeroPeriod { indicator: Indicator::Vol });
    }
    let have: usize = closes.len();
    let need: usize = lookback + 1;
    if have < need {
        return Err(
            FeatureError::NotEnough { indicator: Indicator::Vol, period: lookback, have, need },
        );
    }
    let start: usize = have - need;
    let mut v: Vec<i128> = Vec::new();
    let mut i: usize = start;
    while i < have
        invariant
            start <= i <= have == closes@.len(),
            v@ == closes@.subrange(start as int, i as int),
            forall|k: int| start <= k < i ==> #[trigger] closes@[k] > 0,
            start == have - need,
            need == lookback + 1,
            lookback > 0,
        decreases have - i,
    {
        if closes[i] <= 0 {
            assert(!closes_positive(closes@, lookback + 1)) by {
                assert(closes@[i as int] <= 0);
            }
            return Err(FeatureError::BadClose);
        }
        v.push(closes[i]);
        i += 1;
        assert(v@ =~= closes@.subrange(start as int, i as int));
    }
    assert(v@ =~= closes@.skip(start as int));
    Ok(v)
}

/// The values that the deviation of the last one is taken from: itself, and `lookback`
/// values before it.
pub fn zscore_values(values: &Vec<i128>, lookback: usize) -> (r: Result<Vec<i128>, FeatureError>)
    requires
        lookback <= PERIOD_MAX,
    ensures
        match r {
            Ok(v) => 0 < lookback < values@.len() && v@ == values@.skip(
                values@.len() - (lookback + 1),
            ),
            Err(e) => e == (if lookback == 0 {
                FeatureError::ZeroPeriod { indicator: Indicator::ZScore }
            } else {
                FeatureError::NotEnough {
                    indicator: Indicator::ZScore,
                    period: lookback,
                    have: values@.len() as usize,
                    need: (lookback + 1) as usize,
                }
            }) && (lookback == 0 || values@.len() < lookback + 1),
        },
{
    if lookback == 0 {
        return Err(FeatureError::ZeroPeriod { indicator: Indicator::ZScore });
    }
    let have: usize = values.len();
    let need: usize = lookback + 1;
    if have < need {
        return Err(
            FeatureError::NotEnough { indicator: Indicator::ZScore, period: lookback, have, need },
        );
    }
    let start: usize = have - need;
    let mut v: Vec<i128> = Vec::new();
    let mut i: usize = start;
    while i < have
        invariant
            start <= i <= have == values@.len(),
            v@ == values@.subrange(start as int, i as int),
        decreases have - i,
    {
        v.push(values[i]);
        i += 1;
        assert(v@ =~= values@.subrange(start as int, i as int));
    }
    assert(v@ =~= values@.skip(start as int));
    Ok(v)
}

/// The candles that the features need: 20 of one minute, 101 of five minutes whose
/// closes are above zero, and 200 of one hour.
pub open spec fn enough_candles(c1: int, c5: Seq<Candle>, c60: int) -> bool {
    &&& c1 >= 20
    &&& c5.len() >= 101
    &&& forall|i: int| c5.len() - 101 <= i < c5.len() ==> (#[trigger] c5[i]).close > 0
    &&& c60 >= 200
}

/// An average that lacks values.
pub open spec fn short_ema(period: usize, have: int) -> FeatureError {
    FeatureError::NotEnough { indicator: Indicator::Ema, period, have: have as usize, need: period }
}

/// What is missing first for the features, where anything is.
pub open spec fn shortage(c1: int, candles_5m: Seq<Candle>, c60: int) -> Option<FeatureError> {
    let c5 = candles_5m.len() as int;
    let closes = closes_of(candles_5m);
    if c5 == 0 {
        Some(FeatureError::No5mCandles)
    } else if c60 == 0 {
        Some(FeatureError::No1hCandles)
    } else if c5 < 20 {
        Some(short_ema(20, c5))
    } else if c5 < 50 {
        Some(short_ema(50, c5))
    } else if c60 < 20 {
        Some(short_ema(20, c60))
    } else if c60 < 50 {
        Some(short_ema(50, c60))
    } else if c60 < 200 {
        Some(short_ema(200, c60))
    } else if c5 < 51 {
        Some(
            FeatureError::NotEnough {
                indicator: Indicator::Atr,
                period: 50,
                have: c5 as usize,
                need: 51,
            },
        )
    } else if vol_error(closes, 20) is Some {
        vol_error(closes, 20)
    } else if vol_error(closes, 100) is Some {
        vol_error(closes, 100)
    } else if c1 < 20 {
        Some(short_ema(20, c1))
    } else {
        None
    }
}

/// The features lack nothing exactly where there are enough candles.
pub proof fn law_enough_candles_suffice(c1: int, c5: Seq<Candle>, c60: int)
    requires
        c1 >= 0,
        c60 >= 0,
    ensures
        shortage(c1, c5, c60) is None <==> enough_candles(c1, c5, c60),
{
    let closes = closes_of(c5);
    let n = c5.len() as int;
    if n >= 101 {
        if closes_positive(closes, 101) {
            assert(closes_positive(closes, 21));
            assert forall|i: int| n - 101 <= i < n implies (#[trigger] c5[i]).close > 0 by {
                assert(closes[i] > 0);
            }
        }
        if enough_candles(c1, c5, c60) {
            assert forall|i: int| n - 101 <= i < n implies #[trigger] closes[i] > 0 by {
                assert(c5[i].close > 0);
            }
            assert(closes_positive(closes, 101));
        }
    }
}

/// An average over too few values fails.
fn check_ema(period: usize, have: usize) -> (r: Result<(), FeatureError>)
    ensures
        r == (if have < period {
            Err(short_ema(period, have as int))
        } else {
            Ok(())
        }),
{
    if have < period {
        Err(FeatureError::NotEnough { indicator: Indicator::Ema, period, have, need: period })
    } else {
        Ok(())
    }
}

/// Says what is missing first for the features, where anything is. See [`shortage`].
pub fn check_candles(
    candles_1m: &Vec<Candle>,
    candles_5m: &Vec<Candle>,
    candles_1h: &Vec<Candle>,
) -> (r: Result<(), FeatureError>)
    ensures
        match r {
            Ok(()) => shortage(candles_1m@.len() as int, candles_5m@, candles_1h@.len() as int) is None,
            Err(e) => shortage(candles_1m@.len() as int, candles_5m@, candles_1h@.len() as int)
                == Some(e),
        },
        r is Ok <==> enough_candles(
            candles_1m@.len() as int,
            candles_5m@,
            candles_1h@.len() as int,
        ),
{
    proof {
        law_enough_candles_suffice(
            candles_1m@.len() as int,
            candles_5m@,
            candles_1h@.len() as int,
        );
    }
    let c5: usize = candles_5m.len();
    let c60: usize = candles_1h.len();
    if c5 == 0 {
        return Err(FeatureError::No5mCandles);
    }
    if c60 == 0 {
        return Err(FeatureError::No1hCandles);
    }
    if let Err(e) = check_ema(20, c5) {
        return Err(e);
    }
    if let Err(e) = check_ema(50, c5) {
        return Err(e);
    }
    if let Err(e) = check_ema(20, c60) {
        return Err(e);
    }
    if let Err(e) = check_ema(50, c60) {
        return Err(e);
    }
    if let Err(e) = check_ema(200, c60) {
        return Err(e);
    }
    if c5 < 51 {
        return Err(
            FeatureError::NotEnough { indicator: Indicator::Atr, period: 50, have: c5, need: 51 },
        );
    }
    let closes_5m: Vec<i128> = closes(candles_5m);
    if let Err(e) = vol_closes(&closes_5m, 20) {
        return Err(e);
    }
    if let Err(e) = vol_closes(&closes_5m, 100) {
        return Err(e);
    }
    check_ema(20, candles_1m.len())
}

/// The features of a market.
pub open spec fn is_features(
    c1: Seq<Candle>,
    c5: Seq<Candle>,
    c60: Seq<Candle>,
    m: Measures,
    f: Features,
) -> bool {
    let p1 = closes_of(c1);
    let p5 = closes_of(c5);
    let p60 = closes_of(c60);
    let n1 = c1.len() as int;
    let n5 = c5.len() as int;
    let n60 = c60.len() as int;
    let mid = round_div(sum_of(p5, n5 - 20, n5), 20);
    let upper = mid + 2 * m.close_std20;
    let lower = mid - 2 * m.close_std20;
    &&& f.ema20_1h == ema(p60, 20, n60)
    &&& f.ema50_1h == ema(p60, 50, n60)
    &&& f.ema200_1h == ema(p60, 200, n60)
    &&& f.ema20_5m == ema(p5, 20, n5)
    &&& f.ema50_5m == ema(p5, 50, n5)
    &&& f.atr14_5m == wilder(true_ranges(c5), 14, n5 - 1)
    &&& f.atr14_1m == wilder(true_ranges(c1), 14, n1 - 1)
    &&& f.atr_ratio_5m == saturated(
        quotient(f.atr14_5m as int, max_of(wilder(true_ranges(c5), 50, n5 - 1), 1)),
    )
    &&& f.bb_mid20_5m == mid
    &&& f.bb_upper_5m == upper
    &&& f.bb_lower_5m == lower
    &&& f.bb_width_5m == (if mid <= 0 {
        0
    } else {
        saturated(quotient(upper - lower, mid))
    })
    &&& f.rsi14_5m == strength_index(rises(p5, n5 - 15, n5), falls(p5, n5 - 15, n5), 14)
    &&& f.rsi14_1m == strength_index(rises(p1, n1 - 15, n1), falls(p1, n1 - 15, n1), 14)
    &&& is_channel(c5, n5 - 21, n5 - 1, f.donchian_high20_5m as int, f.donchian_low20_5m as int)
    &&& f.rv_short == m.rv_short
    &&& f.rv_long == m.rv_long
    &&& f.volume_z == m.volume_z
    &&& f.ema20_1m == ema(p1, 20, n1)
    &&& f.velocity_1m == velocity(p1)
    &&& f.velocity_5m == velocity(p5)
    &&& f.last_close_1m == p1.last()
    &&& f.last_close_5m == p5.last()
    &&& f.last_close_1h == p60.last()
}

/// The candles and the measures leave no choice of the features.
pub proof fn law_features_are_determined(
    c1: Seq<Candle>,
    c5: Seq<Candle>,
    c60: Seq<Candle>,
    m: Measures,
    f: Features,
    g: Features,
)
    requires
        is_features(c1, c5, c60, m, f),
        is_features(c1, c5, c60, m, g),
    ensures
        f == g,
{
    law_channel_unique(
        c5,
        c5.len() - 21,
        c5.len() - 1,
        f.donchian_high20_5m as int,
        f.donchian_low20_5m as int,
        g.donchian_high20_5m as int,
        g.donchian_low20_5m as int,
    );
}

/// Computes the features of a market from its candles and measures.
pub fn compute_features(
    candles_1m: &Vec<Candle>,
    candles_5m: &Vec<Candle>,
    candles_1h: &Vec<Candle>,
    m: &Measures,
) -> (r: Result<Features, FeatureError>)
    requires
        candles_ok(candles_1m@),
        candles_ok(candles_5m@),
        candles_ok(candles_1h@),
        m.ok(),
    ensures
        match r {
            Ok(f) => enough_candles(
                candles_1m@.len() as int,
                candles_5m@,
                candles_1h@.len() as int,
            ) && is_features(candles_1m@, candles_5m@, candles_1h@, *m, f) && f.ok(),
            Err(e) => shortage(candles_1m@.len() as int, candles_5m@, candles_1h@.len() as int)
                == Some(e),
        },
        r is Ok <==> enough_candles(
            candles_1m@.len() as int,
            candles_5m@,
            candles_1h@.len() as int,
        ),
{
    if let Err(e) = check_candles(candles_1m, candles_5m, candles_1h) {
        return Err(e);
    }
    let closes_1m: Vec<i128> = closes(candles_1m);
    let closes_5m: Vec<i128> = closes(candles_5m);
    let closes_1h: Vec<i128> = closes(candles_1h);
    proof {
        lemma_closes_ok(candles_1m@);
        lemma_closes_ok(candles_5m@);
        lemma_closes_ok(candles_1h@);
    }
    let ema20_5m: i128 = match ema_last(&closes_5m, 20) {
        Ok(v) => v,
        Err(e) => return Err(e),
    };
    let ema50_5m: i128 = match ema_last(&closes_5m, 50) {
        Ok(v) => v,
        Err(e) => return Err(e),
    };
    let ema20_1h: i128 = match ema_last(&closes_1h, 20) {
        Ok(v) => v,
        Err(e) => return Err(e),
    };
    let ema50_1h: i128 = match ema_last(&closes_1h, 50) {
        Ok(v) => v,
        Err(e) => return Err(e),
    };
    let ema200_1h: i128 = match ema_last(&closes_1h, 200) {
        Ok(v) => v,
        Err(e) => return Err(e),
    };
    let atr14_5m: i128 = match atr14_last(candles_5m, 14) {
        Ok(v) => v,
        Err(e) => return Err(e),
    };
    let atr50_5m: i128 = match atr14_last(candles_5m, 50) {
        Ok(v) => v,
        Err(e) => return Err(e),
    };
    let mid: i128 = match sma_last(&closes_5m, 20) {
        Ok(v) => v,
        Err(e) => return Err(e),
    };
    let rsi14_5m: i128 = match rsi_last(&closes_5m, 14) {
        Ok(v) => v,
        Err(e) => return Err(e),
    };
    let channel: (i128, i128) = match donchian_high_low_prev(candles_5m, 20) {
        Ok(v) => v,
        Err(e) => return Err(e),
    };
    let ema20_1m: i128 = match ema_last(&closes_1m, 20) {
        Ok(v) => v,
        Err(e) => return Err(e),
    };
    let atr14_1m: i128 = match atr14_last(candles_1m, 14) {
        Ok(v) => v,
        Err(e) => return Err(e),
    };
    let rsi14_1m: i128 = match rsi_last(&closes_1m, 14) {
        Ok(v) => v,
        Err(e) => return Err(e),
    };
    let upper: i128 = mid + 2 * m.close_std20;
    let lower: i128 = mid - 2 * m.close_std20;
    let width: i128 = if mid <= 0 {
        0
    } else {
        saturate(div_fixed(upper - lower, mid))
    };
    let ratio: i128 = saturate(div_fixed(atr14_5m, max_fixed(atr50_5m, 1)));
    proof {
        let n5 = candles_5m@.len() as int;
        lemma_channel_ok(candles_5m@, n5 - 21, n5 - 1, channel.0 as int, channel.1 as int);
        assert(price_ok(closes_of(candles_1m@).last() as int)) by {
            assert(candles_1m@[candles_1m@.len() - 1].ok());
        }
        assert(price_ok(closes_of(candles_5m@).last() as int)) by {
            assert(candles_5m@[n5 - 1].ok());
        }
        assert(price_ok(closes_of(candles_1h@).last() as int)) by {
            assert(candles_1h@[candles_1h@.len() - 1].ok());
        }
    }
    Ok(
        Features {
            ema20_1h,
            ema50_1h,
            ema200_1h,
            ema20_5m,
            ema50_5m,
            atr14_5m,
            atr14_1m,
            atr_ratio_5m: ratio,
            bb_mid20_5m: mid,
            bb_upper_5m: upper,
            bb_lower_5m: lower,
            bb_width_5m: width,
            rsi14_5m,
            rsi14_1m,
            donchian_high20_5m: channel.0,
            donchian_low20_5m: channel.1,
            rv_short: m.rv_short,
            rv_long: m.rv_long,
            volume_z: m.volume_z,
            ema20_1m,
            velocity_1m: velocity_of(&closes_1m),
            velocity_5m: velocity_of(&closes_5m),
            last_close_1m: closes_1m[closes_1m.len() - 1],
            last_close_5m: closes_5m[closes_5m.len() - 1],
            last_close_1h: closes_1h[closes_1h.len() - 1],
        },
    )
}

proof fn lemma_closes_ok(c: Seq<Candle>)
    requires
        candles_ok(c),
    ensures
        series_ok(closes_of(c)),
{
    assert forall|i: int| 0 <= i < closes_of(c).len() implies price_ok(
        #[trigger] closes_of(c)[i] as int,
    ) by {
        assert(c[i].ok());
    }
}

proof fn lemma_channel_ok(c: Seq<Candle>, from: int, to: int, high: int, low: int)
    requires
        candles_ok(c),
        0 <= from,
        to <= c.len(),
        is_channel(c, from, to, high, low),
    ensures
        price_ok(high),
        price_ok(low),
{
    let i = choose|i: int| from <= i < to && (#[trigger] c[i]).high == high;
    assert(c[i].ok());
    let j = choose|j: int| from <= j < to && (#[trigger] c[j]).low == low;
    assert(c[j].ok());
}

/// A constant series is its own average.
pub proof fn law_ema_of_a_constant(v: Seq<i128>, period: int, n: int, c: i128)
    requires
        0 < period <= n <= v.len(),
        forall|i: int| 0 <= i < v.len() ==> #[trigger] v[i] == c,
    ensures
        ema(v, period, n) == c,
    decreases n,
{
    if n == period {
        lemma_sum_constant(v, period, c);
        assert(period * c == c * period) by (nonlinear_arith);
        lemma_round_div_exact(c as int, period);
    } else {
        law_ema_of_a_constant(v, period, n - 1, c);
        assert(2 * c + (period - 1) * c == c * (period + 1)) by (nonlinear_arith);
        lemma_round_div_exact(c as int, period + 1);
    }
}

proof fn lemma_sum_constant(v: Seq<i128>, n: int, c: i128)
    requires
        0 <= n <= v.len(),
        forall|i: int| 0 <= i < v.len() ==> #[trigger] v[i] == c,
    ensures
        sum_of(v, 0, n) == n * c,
    decreases n,
{
    if n > 0 {
        lemma_sum_constant(v, n - 1, c);
        assert((n - 1) * c + c == n * c) by (nonlinear_arith);
    } else {
        assert(0 * c == 0) by (nonlinear_arith);
    }
}

/// The last candle does not count towards the channel that it may break out of.
pub proof fn law_channel_excludes_the_last_candle(
    c: Seq<Candle>,
    last: Candle,
    lookback: int,
    high: int,
    low: int,
)
    requires
        0 < lookback < c.len(),
        is_channel(c, c.len() - 1 - lookback, c.len() - 1, high, low),
    ensures
        is_channel(c.update(c.len() - 1, last), c.len() - 1 - lookback, c.len() - 1, high, low),
{
    let d = c.update(c.len() - 1, last);
    let from = c.len() - 1 - lookback;
    let to = c.len() - 1;
    let i = choose|i: int| from <= i < to && (#[trigger] c[i]).high == high;
    let j = choose|j: int| from <= j < to && (#[trigger] c[j]).low == low;
    assert(d[i] == c[i] && d[j] == c[j]);
    assert forall|k: int| from <= k < to implies (#[trigger] d[k]).high <= high && low <= d[k].low by {
        assert(d[k] == c[k]);
    }
}

/// A sum counts each value once: changing one value changes the sum as much, and a value
/// outside does not count.
pub proof fn law_sum_counts_each_once(v: Seq<i128>, from: int, to: int, i: int, x: i128)
    requires
        0 <= from <= to <= v.len(),
        0 <= i < v.len(),
    ensures
        from <= i < to ==> sum_of(v.update(i, x), from, to) - sum_of(v, from, to) == x - v[i],
        !(from <= i < to) ==> sum_of(v.update(i, x), from, to) == sum_of(v, from, to),
    decreases to - from,
{
    if from < to {
        law_sum_counts_each_once(v, from, to - 1, i, x);
    }
}

/// The sum of values between two bounds is between as many times the bounds.
pub proof fn law_sum_is_between(v: Seq<i128>, from: int, to: int, lo: int, hi: int)
    requires
        0 <= from <= to <= v.len(),
        forall|i: int| from <= i < to ==> lo <= #[trigger] v[i] <= hi,
    ensures
        (to - from) * lo <= sum_of(v, from, to) <= (to - from) * hi,
    decreases to - from,
{
    if from < to {
        law_sum_is_between(v, from, to - 1, lo, hi);
        assert((to - from) * lo == (to - 1 - from) * lo + lo) by (nonlinear_arith);
        assert((to - from) * hi == (to - 1 - from) * hi + hi) by (nonlinear_arith);
    } else {
        assert((to - from) * lo == 0 && (to - from) * hi == 0) by (nonlinear_arith)
            requires
                to == from,
        ;
    }
}

/// A rounded mean of numbers between two bounds is between the bounds.
proof fn lemma_mean_between(n: int, weight: int, lo: int, hi: int)
    requires
        weight > 0,
        weight * lo <= n <= weight * hi,
    ensures
        lo <= round_div(n, weight) <= hi,
{
    lemma_round_div_monotone(n, weight * hi, weight);
    lemma_round_div_monotone(weight * lo, n, weight);
    assert(weight * hi == hi * weight && weight * lo == lo * weight) by (nonlinear_arith);
    lemma_round_div_exact(hi, weight);
    lemma_round_div_exact(lo, weight);
}

/// The averages never leave the range of the values that they average.
pub proof fn law_averages_stay_between(v: Seq<i128>, period: int, n: int, lo: int, hi: int)
    requires
        0 < period <= n <= v.len(),
        forall|i: int| 0 <= i < n ==> lo <= #[trigger] v[i] <= hi,
    ensures
        lo <= ema(v, period, n) <= hi,
        lo <= wilder(v, period, n) <= hi,
        lo <= round_div(sum_of(v, n - period, n), period) <= hi,
    decreases n,
{
    law_sum_is_between(v, n - period, n, lo, hi);
    lemma_mean_between(sum_of(v, n - period, n), period, lo, hi);
    if n == period {
        lemma_mean_between(sum_of(v, 0, period), period, lo, hi);
    } else {
        law_averages_stay_between(v, period, n - 1, lo, hi);
        let e = ema(v, period, n - 1);
        let a = wilder(v, period, n - 1);
        let x = v[n - 1] as int;
        assert((period + 1) * lo <= 2 * x + (period - 1) * e <= (period + 1) * hi) by (nonlinear_arith)
            requires
                period >= 1,
                lo <= x <= hi,
                lo <= e <= hi,
        ;
        assert(period * lo <= a * (period - 1) + x <= period * hi) by (nonlinear_arith)
            requires
                period >= 1,
                lo <= x <= hi,
                lo <= a <= hi,
        ;
        lemma_mean_between(2 * x + (period - 1) * e, period + 1, lo, hi);
        lemma_mean_between(a * (period - 1) + x, period, lo, hi);
    }
}

/// The newest value has the weight `1 / period` in the average true range: `period` times
/// the move of the average is the distance of the newest range from it, to half a step for
/// each bar of the period.
pub proof fn law_newest_range_weighs_one_in_period(t: Seq<i128>, period: int, n: int)
    requires
        0 < period < n <= t.len(),
    ensures
        ({
            let before = wilder(t, period, n - 1);
            let after = wilder(t, period, n);
            -period <= 2 * (period * (after - before) - (t[n - 1] - before)) <= period
        }),
{
    let a = wilder(t, period, n - 1);
    let b = wilder(t, period, n);
    let x = t[n - 1] as int;
    lemma_round_div_error(a * (period - 1) + x, period);
    assert(a * (period - 1) + x == period * a - a + x) by (nonlinear_arith);
    assert(b * period == period * b && period * (b - a) == period * b - period * a) by (nonlinear_arith);
}

/// The newest value has the weight `2 / (period + 1)` in the exponential average.
pub proof fn law_newest_value_weighs_two_in_period_and_one(v: Seq<i128>, period: int, n: int)
    requires
        0 < period < n <= v.len(),
    ensures
        ({
            let before = ema(v, period, n - 1);
            let after = ema(v, period, n);
            -(period + 1) <= 2 * ((period + 1) * (after - before) - 2 * (v[n - 1] - before))
                <= period + 1
        }),
{
    let a = ema(v, period, n - 1);
    let b = ema(v, period, n);
    let x = v[n - 1] as int;
    lemma_round_div_error(2 * x + (period - 1) * a, period + 1);
    assert(2 * x + (period - 1) * a == (period + 1) * a + 2 * (x - a)) by (nonlinear_arith);
    assert(b * (period + 1) == (period + 1) * b && (period + 1) * (b - a) == (period + 1) * b - (
    period + 1) * a) by (nonlinear_arith);
}

/// The averages start as the mean of the first values.
pub proof fn law_averages_start_as_a_mean(v: Seq<i128>, period: int)
    requires
        0 < period <= v.len(),
    ensures
        -period <= 2 * (period * ema(v, period, period) - sum_of(v, 0, period)) <= period,
        -period <= 2 * (period * wilder(v, period, period) - sum_of(v, 0, period)) <= period,
{
    let s = sum_of(v, 0, period);
    lemma_round_div_error(s, period);
    let e = ema(v, period, period);
    let w = wilder(v, period, period);
    assert(e * period == period * e && w * period == period * w) by (nonlinear_arith);
}

/// The averages of a longer series depend on its beginning alone.
proof fn lemma_averages_prefix(v: Seq<i128>, w: Seq<i128>, period: int, n: int)
    requires
        0 < period <= n <= v.len(),
        n <= w.len(),
        forall|i: int| 0 <= i < n ==> v[i] == #[trigger] w[i],
    ensures
        ema(v, period, n) == ema(w, period, n),
        wilder(v, period, n) == wilder(w, period, n),
    decreases n,
{
    if n > period {
        lemma_averages_prefix(v, w, period, n - 1);
        assert(v[n - 1] == w[n - 1]);
    } else {
        lemma_sum_prefix(v, w, 0, period);
    }
}

proof fn lemma_sum_prefix(v: Seq<i128>, w: Seq<i128>, from: int, to: int)
    requires
        0 <= from <= to <= v.len(),
        to <= w.len(),
        forall|i: int| from <= i < to ==> v[i] == #[trigger] w[i],
    ensures
        sum_of(v, from, to) == sum_of(w, from, to),
    decreases to - from,
{
    if from < to {
        lemma_sum_prefix(v, w, from, to - 1);
        assert(v[to - 1] == w[to - 1]);
    }
}

/// The true range is the least distance that covers the bar and the gap from the close
/// before it.
pub proof fn law_true_range_covers_the_bar_and_the_gap(c: Candle, prev_close: int)
    ensures
        ({
            let t = true_range(c, prev_close);
            &&& t >= c.high - c.low
            &&& t >= c.high - prev_close
            &&& t >= prev_close - c.high
            &&& t >= c.low - prev_close
            &&& t >= prev_close - c.low
            &&& (t == c.high - c.low || t == c.high - prev_close || t == prev_close - c.high || t
                == c.low - prev_close || t == prev_close - c.low)
        }),
{
}

/// One more candle adds one true range: that of this candle after the last one.
pub proof fn law_each_candle_adds_its_range(c: Seq<Candle>, x: Candle)
    requires
        c.len() > 0,
        candles_ok(c.push(x)),
    ensures
        true_ranges(c.push(x)).len() == true_ranges(c).len() + 1,
        true_ranges(c.push(x)).last() == true_range(x, c.last().close as int),
        forall|i: int|
            0 <= i < true_ranges(c).len() ==> true_ranges(c.push(x))[i] == #[trigger] true_ranges(c)[i],
{
    let d = c.push(x);
    let n = c.len() as int;
    assert(d[n].ok() && d[n - 1].ok());
    assert(d[n - 1] == c.last());
    assert(true_ranges(d).len() == n);
    assert(true_ranges(d)[n - 1] == true_range(d[n], d[n - 1].close as int) as i128);
    assert forall|i: int| 0 <= i < true_ranges(c).len() implies true_ranges(d)[i]
        == #[trigger] true_ranges(c)[i] by {
        assert(d[i] == c[i] && d[i + 1] == c[i + 1]);
    }
}

/// Rises and falls tell the way from the first value to the last: each step counts as one
/// or the other, and never against it.
pub proof fn law_rises_and_falls_tell_the_way(v: Seq<i128>, from: int, to: int)
    requires
        0 <= from < to <= v.len(),
    ensures
        rises(v, from, to) - falls(v, from, to) == v[to - 1] - v[from],
        rises(v, from, to) >= 0,
        falls(v, from, to) >= 0,
        to > from + 1 && v[to - 1] >= v[to - 2] ==> falls(v, from, to) == falls(v, from, to - 1),
        to > from + 1 && v[to - 1] <= v[to - 2] ==> rises(v, from, to) == rises(v, from, to - 1),
        to == from + 1 ==> rises(v, from, to) == 0 && falls(v, from, to) == 0,
    decreases to - from,
{
    if from + 1 < to {
        law_rises_and_falls_tell_the_way(v, from, to - 1);
    }
}

proof fn lemma_share_slack(d: int, ef: int, re: int, wf: int, rise: int, fall: int)
    requires
        rise >= 0,
        fall >= 0,
        1_000_000_000_000 * d == ef - re,
        -wf <= 2 * ef <= wf,
        wf <= 1_000_000_000_000 * rise + 1_000_000_000_000 * fall + fall,
        -100_000_000_000_000 * fall <= 2 * re <= 100_000_000_000_000 * fall,
    ensures
        -52 * (rise + fall) <= d <= 52 * (rise + fall),
{
    assert(2_000_000_000_000 * d <= 101_000_000_000_001 * fall + 1_000_000_000_000 * rise);
    assert(2_000_000_000_000 * d >= -101_000_000_000_001 * fall - 1_000_000_000_000 * rise);
}

/// The strength index is the share of the rises in all moves, in percent: to `5.2 * 10^-11`.
/// Without falls it is 100.
pub proof fn law_strength_is_the_share_of_the_rises(rise: int, fall: int, period: int)
    requires
        rise >= 0,
        fall >= 0,
        period >= 0,
    ensures
        fall <= period ==> strength_index(rise, fall, period) == 100_000_000_000_000,
        fall > period ==> {
            let x = strength_index(rise, fall, period);
            -52 * (rise + fall) <= x * (rise + fall) - 100_000_000_000_000 * rise <= 52 * (rise + fall)
        },
{
    if fall > period {
        let q = quotient(rise, fall);
        let w = ONE + q;
        lemma_round_div_error(rise * ONE, fall);
        lemma_round_div_monotone(0, rise * ONE, fall);
        lemma_round_div_exact(0, fall);
        let h = 100 * ONE * ONE;
        let r = round_div(h, w);
        lemma_round_div_error(h, w);
        lemma_round_div_monotone(0, h, w);
        lemma_round_div_exact(0, w);
        assert(h <= (100 * ONE) * w) by (nonlinear_arith)
            requires
                h == 100 * ONE * ONE,
                w >= ONE,
        ;
        lemma_round_div_monotone(h, (100 * ONE) * w, w);
        lemma_round_div_exact(100 * ONE as int, w);
        let qf = q * fall;
        let e1 = qf - rise * ONE;
        let rw = r * w;
        let e2 = rw - h;
        let s = rise + fall;
        let rs = r * s;
        assert(-fall <= 2 * e1 <= fall);
        assert(-w <= 2 * e2 <= w);
        assert(0 <= r <= 100 * ONE);
        assert(rw * fall == r * (ONE * fall + qf)) by (nonlinear_arith)
            requires
                rw == r * w,
                w == ONE + q,
                qf == q * fall,
        ;
        assert(r * (ONE * fall + qf) == ONE * rs + r * e1) by (nonlinear_arith)
            requires
                qf == rise * ONE + e1,
                rs == r * (rise + fall),
        ;
        assert(rw * fall == h * fall + e2 * fall) by (nonlinear_arith)
            requires
                e2 == rw - h,
        ;
        let wf = w * fall;
        assert(wf == ONE * fall + qf) by (nonlinear_arith)
            requires
                wf == w * fall,
                w == ONE + q,
                qf == q * fall,
        ;
        assert(-wf <= 2 * (e2 * fall) <= wf) by (nonlinear_arith)
            requires
                -w <= 2 * e2 <= w,
                fall > 0,
                wf == w * fall,
        ;
        assert(-100 * ONE * fall <= 2 * (r * e1) <= 100 * ONE * fall) by (nonlinear_arith)
            requires
                -fall <= 2 * e1 <= fall,
                0 <= r <= 100 * ONE,
                fall > 0,
        ;
        assert(h * fall == 100 * ONE * ONE * fall) by (nonlinear_arith)
            requires
                h == 100 * ONE * ONE,
        ;
        let re = r * e1;
        let ef = e2 * fall;
        assert(-100 * ONE * fall <= 2 * re <= 100 * ONE * fall);
        assert(-wf <= 2 * ef <= wf);
        assert(ONE * rs + re == 100 * ONE * ONE * fall + ef);
        assert(wf == ONE * fall + rise * ONE + e1);
        let d = rs - 100 * ONE * fall;
        assert(ONE * d == ONE * rs - 100 * ONE * ONE * fall) by (nonlinear_arith)
            requires
                d == rs - 100 * ONE * fall,
        ;
        assert(ONE * d == ef - re);
        lemma_share_slack(d, ef, re, wf, rise, fall);
        let x = strength_index(rise, fall, period);
        assert(x == 100 * ONE - r);
        assert(x * s == 100 * ONE * s - rs) by (nonlinear_arith)
            requires
                rs == r * s,
                x == 100 * ONE - r,
        ;
    }
}

/// The velocity is the change over three bars as a fraction of where it started, rounded
/// to a step; where the start is no price it is nothing.
pub proof fn law_velocity_is_the_relative_change(closes: Seq<i128>)
    requires
        closes.len() >= 4,
    ensures
        ({
            let from = closes[closes.len() - 4] as int;
            let to = closes[closes.len() - 1] as int;
            let v = velocity(closes);
            &&& (from <= 0 ==> v == 0)
            &&& (from > 0 && -LIMIT < v < LIMIT ==> -from <= 2 * (v * from - (to - from) * ONE)
                <= from)
            &&& (from > 0 && to > from ==> v >= 0)
            &&& (from > 0 && to < from ==> v <= 0)
        }),
{
    let from = closes[closes.len() - 4] as int;
    let to = closes[closes.len() - 1] as int;
    if from > 0 {
        lemma_round_div_error((to - from) * ONE, from);
        lemma_round_div_exact(0, from);
        if to > from {
            lemma_round_div_monotone(0, (to - from) * ONE, from);
        }
        if to < from {
            lemma_round_div_monotone((to - from) * ONE, 0, from);
        }
    }
}

/// Each feature is of its own interval: what the other intervals hold does not touch it.
pub proof fn law_features_keep_to_their_interval(
    c1: Seq<Candle>,
    c5: Seq<Candle>,
    c60: Seq<Candle>,
    d1: Seq<Candle>,
    d5: Seq<Candle>,
    d60: Seq<Candle>,
    m: Measures,
    k: Measures,
    f: Features,
    g: Features,
)
    requires
        is_features(c1, c5, c60, m, f),
        is_features(d1, d5, d60, k, g),
    ensures
        c1 == d1 ==> f.atr14_1m == g.atr14_1m && f.rsi14_1m == g.rsi14_1m && f.ema20_1m == g.ema20_1m
            && f.velocity_1m == g.velocity_1m && f.last_close_1m == g.last_close_1m,
        c5 == d5 ==> f.ema20_5m == g.ema20_5m && f.ema50_5m == g.ema50_5m && f.atr14_5m == g.atr14_5m
            && f.atr_ratio_5m == g.atr_ratio_5m && f.bb_mid20_5m == g.bb_mid20_5m && f.rsi14_5m
            == g.rsi14_5m && f.donchian_high20_5m == g.donchian_high20_5m && f.donchian_low20_5m
            == g.donchian_low20_5m && f.velocity_5m == g.velocity_5m && f.last_close_5m
            == g.last_close_5m,
        c60 == d60 ==> f.ema20_1h == g.ema20_1h && f.ema50_1h == g.ema50_1h && f.ema200_1h
            == g.ema200_1h && f.last_close_1h == g.last_close_1h,
        f.rv_short == m.rv_short && f.rv_long == m.rv_long && f.volume_z == m.volume_z,
{
    if c5 == d5 {
        law_channel_unique(
            c5,
            c5.len() - 21,
            c5.len() - 1,
            f.donchian_high20_5m as int,
            f.donchian_low20_5m as int,
            g.donchian_high20_5m as int,
            g.donchian_low20_5m as int,
        );
    }
}

/// The bands stand two standard deviations over and under the mean of the last 20 closes,
/// and their width is their distance as a fraction of the mean.
pub proof fn law_bands_stand_around_the_mean(
    c1: Seq<Candle>,
    c5: Seq<Candle>,
    c60: Seq<Candle>,
    m: Measures,
    f: Features,
)
    requires
        c5.len() >= 20,
        is_features(c1, c5, c60, m, f),
    ensures
        f.bb_upper_5m - f.bb_mid20_5m == 2 * m.close_std20,
        f.bb_mid20_5m - f.bb_lower_5m == 2 * m.close_std20,
        -20 <= 2 * (20 * f.bb_mid20_5m - sum_of(closes_of(c5), c5.len() - 20, c5.len() as int)) <= 20,
        f.bb_mid20_5m <= 0 ==> f.bb_width_5m == 0,
        f.bb_mid20_5m > 0 && -LIMIT < f.bb_width_5m < LIMIT ==> -f.bb_mid20_5m <= 2 * (f.bb_width_5m
            * f.bb_mid20_5m - (f.bb_upper_5m - f.bb_lower_5m) * ONE) <= f.bb_mid20_5m,
{
    let n = c5.len() as int;
    lemma_round_div_error(sum_of(closes_of(c5), n - 20, n), 20);
    if f.bb_mid20_5m > 0 {
        lemma_round_div_error((f.bb_upper_5m - f.bb_lower_5m) * ONE, f.bb_mid20_5m as int);
    }
}

/// What one more five-minute candle does to the features: it moves each average by its
/// weight, it is the last close, it leaves the channel to the 20 candles before it.
pub proof fn law_one_more_five_minute_candle(
    c1: Seq<Candle>,
    c5: Seq<Candle>,
    c60: Seq<Candle>,
    x: Candle,
    m: Measures,
    k: Measures,
    f: Features,
    g: Features,
)
    requires
        c5.len() >= 51,
        candles_ok(c5.push(x)),
        is_features(c1, c5, c60, m, f),
        is_features(c1, c5.push(x), c60, k, g),
    ensures
        -21 <= 2 * (21 * (g.ema20_5m - f.ema20_5m) - 2 * (x.close - f.ema20_5m)) <= 21,
        -51 <= 2 * (51 * (g.ema50_5m - f.ema50_5m) - 2 * (x.close - f.ema50_5m)) <= 51,
        -20 <= 20 * (g.bb_mid20_5m - f.bb_mid20_5m) - (x.close - c5[c5.len() - 20].close) <= 20,
        ({
            let t = true_range(x, c5.last().close as int);
            -14 <= 2 * (14 * (g.atr14_5m - f.atr14_5m) - (t - f.atr14_5m)) <= 14
        }),
        g.last_close_5m == x.close,
        forall|i: int|
            c5.len() - 20 <= i < c5.len() ==> (#[trigger] c5[i]).high <= g.donchian_high20_5m
                && c5[i].low >= g.donchian_low20_5m,
        exists|i: int|
            c5.len() - 20 <= i < c5.len() && (#[trigger] c5[i]).high == g.donchian_high20_5m,
        exists|i: int|
            c5.len() - 20 <= i < c5.len() && (#[trigger] c5[i]).low == g.donchian_low20_5m,
{
    let n = c5.len() as int;
    let d5 = c5.push(x);
    let p = closes_of(c5);
    let q = closes_of(d5);
    assert(q.len() == n + 1 && q[n] == x.close);
    assert forall|i: int| 0 <= i < n implies p[i] == #[trigger] q[i] by {
        assert(d5[i] == c5[i]);
    }
    lemma_averages_prefix(p, q, 20, n);
    lemma_averages_prefix(p, q, 50, n);
    law_newest_value_weighs_two_in_period_and_one(q, 20, n + 1);
    law_newest_value_weighs_two_in_period_and_one(q, 50, n + 1);
    law_each_candle_adds_its_range(c5, x);
    let t = true_ranges(c5);
    let u = true_ranges(d5);
    assert(u.len() == n && u[n - 1] == true_range(x, c5.last().close as int));
    assert forall|i: int| 0 <= i < n - 1 implies t[i] == #[trigger] u[i] by {}
    lemma_averages_prefix(t, u, 14, n - 1);
    law_newest_range_weighs_one_in_period(u, 14, n);
    lemma_sum_prefix(p, q, n - 20, n);
    lemma_sum_shift(q, n - 20, n);
    lemma_round_div_error(sum_of(p, n - 20, n), 20);
    lemma_round_div_error(sum_of(q, n - 19, n + 1), 20);
    assert(q[n - 20] == p[n - 20]);
    assert forall|i: int| n - 20 <= i < n implies (#[trigger] c5[i]).high <= g.donchian_high20_5m
        && c5[i].low >= g.donchian_low20_5m by {
        assert(d5[i] == c5[i]);
    }
    let a = choose|i: int| n - 20 <= i < n && (#[trigger] d5[i]).high == g.donchian_high20_5m;
    assert(c5[a] == d5[a]);
    let b = choose|i: int| n - 20 <= i < n && (#[trigger] d5[i]).low == g.donchian_low20_5m;
    assert(c5[b] == d5[b]);
}

/// Moving a window by one value drops the first value and takes in the next.
proof fn lemma_sum_shift(v: Seq<i128>, from: int, to: int)
    requires
        0 <= from < to < v.len(),
    ensures
        sum_of(v, from + 1, to + 1) == sum_of(v, from, to) + v[to] - v[from],
    decreases to - from,
{
    if from + 1 < to {
        lemma_sum_shift(v, from, to - 1);
    } else {
        assert(sum_of(v, from, to) == sum_of(v, from, to - 1) + v[to - 1]);
        assert(sum_of(v, from, to - 1) == 0);
        assert(sum_of(v, from + 1, to + 1) == sum_of(v, from + 1, to) + v[to]);
        assert(sum_of(v, from + 1, to) == 0);
    }
}

/// What one more candle of the other intervals does to the features.
pub proof fn law_one_more_candle_elsewhere(
    c1: Seq<Candle>,
    c5: Seq<Candle>,
    c60: Seq<Candle>,
    x: Candle,
    y: Candle,
    m: Measures,
    f: Features,
    g: Features,
)
    requires
        c1.len() >= 20,
        c60.len() >= 200,
        candles_ok(c1.push(x)),
        is_features(c1, c5, c60, m, f),
        is_features(c1.push(x), c5, c60.push(y), m, g),
    ensures
        -21 <= 2 * (21 * (g.ema20_1m - f.ema20_1m) - 2 * (x.close - f.ema20_1m)) <= 21,
        ({
            let t = true_range(x, c1.last().close as int);
            -14 <= 2 * (14 * (g.atr14_1m - f.atr14_1m) - (t - f.atr14_1m)) <= 14
        }),
        -21 <= 2 * (21 * (g.ema20_1h - f.ema20_1h) - 2 * (y.close - f.ema20_1h)) <= 21,
        -51 <= 2 * (51 * (g.ema50_1h - f.ema50_1h) - 2 * (y.close - f.ema50_1h)) <= 51,
        -201 <= 2 * (201 * (g.ema200_1h - f.ema200_1h) - 2 * (y.close - f.ema200_1h)) <= 201,
        g.last_close_1m == x.close,
        g.last_close_1h == y.close,
{
    let n = c1.len() as int;
    let d1 = c1.push(x);
    let p = closes_of(c1);
    let q = closes_of(d1);
    assert forall|i: int| 0 <= i < n implies p[i] == #[trigger] q[i] by {
        assert(d1[i] == c1[i]);
    }
    lemma_averages_prefix(p, q, 20, n);
    law_newest_value_weighs_two_in_period_and_one(q, 20, n + 1);
    law_each_candle_adds_its_range(c1, x);
    let t = true_ranges(c1);
    let u = true_ranges(d1);
    assert forall|i: int| 0 <= i < n - 1 implies t[i] == #[trigger] u[i] by {}
    lemma_averages_prefix(t, u, 14, n - 1);
    law_newest_range_weighs_one_in_period(u, 14, n);
    let h = c60.len() as int;
    let d60 = c60.push(y);
    let r = closes_of(c60);
    let s = closes_of(d60);
    assert forall|i: int| 0 <= i < h implies r[i] == #[trigger] s[i] by {
        assert(d60[i] == c60[i]);
    }
    lemma_averages_prefix(r, s, 20, h);
    lemma_averages_prefix(r, s, 50, h);
    lemma_averages_prefix(r, s, 200, h);
    law_newest_value_weighs_two_in_period_and_one(s, 20, h + 1);
    law_newest_value_weighs_two_in_period_and_one(s, 50, h + 1);
    law_newest_value_weighs_two_in_period_and_one(s, 200, h + 1);
}

/// The strength indices look at the last fourteen changes: they are the share of the rises
/// among them. The ratio of the ranges is that of the short average to the long one.
pub proof fn law_oscillators_look_fourteen_bars_back(
    c1: Seq<Candle>,
    c5: Seq<Candle>,
    c60: Seq<Candle>,
    m: Measures,
    f: Features,
)
    requires
        c1.len() >= 15,
        c5.len() >= 51,
        is_features(c1, c5, c60, m, f),
    ensures
        ({
            let p = closes_of(c5);
            let n = c5.len() as int;
            let rise = rises(p, n - 15, n);
            let fall = falls(p, n - 15, n);
            &&& (fall <= 14 ==> f.rsi14_5m == 100_000_000_000_000)
            &&& (fall > 14 ==> -52 * (rise + fall) <= f.rsi14_5m * (rise + fall)
                - 100_000_000_000_000 * rise <= 52 * (rise + fall))
        }),
        ({
            let p = closes_of(c1);
            let n = c1.len() as int;
            let rise = rises(p, n - 15, n);
            let fall = falls(p, n - 15, n);
            &&& (fall <= 14 ==> f.rsi14_1m == 100_000_000_000_000)
            &&& (fall > 14 ==> -52 * (rise + fall) <= f.rsi14_1m * (rise + fall)
                - 100_000_000_000_000 * rise <= 52 * (rise + fall))
        }),
        ({
            let long = wilder(true_ranges(c5), 50, c5.len() - 1);
            long > 0 && -LIMIT < f.atr_ratio_5m < LIMIT ==> -long <= 2 * (f.atr_ratio_5m * long
                - f.atr14_5m * ONE) <= long
        }),
{
    let n5 = c5.len() as int;
    let n1 = c1.len() as int;
    law_rises_and_falls_tell_the_way(closes_of(c5), n5 - 15, n5);
    law_rises_and_falls_tell_the_way(closes_of(c1), n1 - 15, n1);
    law_strength_is_the_share_of_the_rises(
        rises(closes_of(c5), n5 - 15, n5),
        falls(closes_of(c5), n5 - 15, n5),
        14,
    );
    law_strength_is_the_share_of_the_rises(
        rises(closes_of(c1), n1 - 15, n1),
        falls(closes_of(c1), n1 - 15, n1),
        14,
    );
    let long = wilder(true_ranges(c5), 50, n5 - 1);
    if long > 0 {
        lemma_round_div_error(f.atr14_5m * ONE, long);
    }
}

} // verus!
