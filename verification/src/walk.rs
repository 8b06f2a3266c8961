//! Backtests of a history: of all of it, and of its windows one after the other.
use crate::backtest::{
    candle_ms, law_curves_follow_the_bars, law_later_trades_end_later, law_no_bar_looks_ahead,
    law_trades_are_only_added, replayed, time_of, trade_views, Bar, BacktestConfig, CurvePoint,
};
use crate::features::{Candle, Measures};
use crate::fixed::max_of;
use crate::metrics::{
    bars_counted, counted_names, entered_from, keep_test_trades, law_counts_cover_the_bars,
    law_test_trades_enter_in_the_test, run_backtest, BacktestReport, TRADES_MAX,
};
use crate::regime::RegimeThresholds;
use crate::replay::{
    in_order, law_bars_do_not_look_ahead, law_bars_follow_the_warm_up,
    law_later_bars_are_of_later_candles, measures_ok, same_through, History,
};
use crate::signals::SignalSettings;
use crate::telemetry::TradeView;
use crate::text::ascending;
use crate::windows::{
    law_windows_tile_the_data, test_share, walk_refusal, walk_window, walk_windows, window_label,
    window_text, WalkError, WalkWindow, WARM_UP,
};
use vstd::prelude::*;

verus! {

/// Whether `r` reports the replay of a history with the given measures.
pub open spec fn is_report_of(
    h: History,
    m: Seq<Option<Measures>>,
    t: RegimeThresholds,
    cfg: BacktestConfig,
    set: SignalSettings,
    r: BacktestReport,
) -> bool {
    exists|v: Seq<Bar>| #[trigger]
        h.is_bars(m, t, m.len() as int, v) && r.reports(v, h.m5@.last(), cfg, set)
}

/// Whether the curves and the counts of a report fit each other and a history of `n`
/// five-minute candles: the curves have a point for each counted bar, at the same
/// times; no drawdown is negative; the first 119 candles have no bar; and the
/// regimes are listed by their names.
pub open spec fn covers(r: BacktestReport, n: int) -> bool {
    &&& r.equity_curve@.len() == r.drawdown_curve@.len() == bars_counted(r.regime_bar_counts@)
    &&& r.equity_curve@.len() <= max_of(n - (WARM_UP - 1), 0)
    &&& forall|i: int|
        0 <= i < r.equity_curve@.len() ==> (#[trigger] r.equity_curve@[i]).time_ms
            == r.drawdown_curve@[i].time_ms
    &&& forall|i: int|
        0 <= i < r.drawdown_curve@.len() ==> (#[trigger] r.drawdown_curve@[i]).value >= 0
    &&& ascending(counted_names(r.regime_bar_counts@))
}

/// The report of a history covers it.
pub proof fn law_report_covers_the_history(
    h: History,
    m: Seq<Option<Measures>>,
    t: RegimeThresholds,
    cfg: BacktestConfig,
    set: SignalSettings,
    r: BacktestReport,
)
    requires
        m.len() == h.m5@.len(),
        is_report_of(h, m, t, cfg, set, r),
    ensures
        covers(r, h.m5@.len() as int),
{
    let v = choose|v: Seq<Bar>| #[trigger]
        h.is_bars(m, t, m.len() as int, v) && r.reports(v, h.m5@.last(), cfg, set);
    assert(h.m5.len() == h.m5@.len());
    law_bars_follow_the_warm_up(h, m, m.len() as int);
    law_curves_follow_the_bars(v, v.len() as int, cfg, set);
    law_counts_cover_the_bars(v);
    let s = replayed(v, v.len() as int, cfg, set);
    assert(r.equity_curve@ == s.equity_curve && r.drawdown_curve@ == s.drawdown_curve);
    assert forall|i: int| 0 <= i < r.equity_curve@.len() implies (
    #[trigger] r.equity_curve@[i]).time_ms == r.drawdown_curve@[i].time_ms by {
        assert(s.equity_curve[i].time_ms == candle_ms(v[i].candle));
        assert(s.drawdown_curve[i].time_ms == candle_ms(v[i].candle));
    }
}

/// Replays a history and reports it. `m` holds the measures of each five-minute
/// candle, or none where they cannot be taken.
pub fn backtest_history(
    h: &History,
    m: &Vec<Option<Measures>>,
    t: &RegimeThresholds,
    cfg: &BacktestConfig,
    set: &SignalSettings,
) -> (r: BacktestReport)
    requires
        h.ok(),
        0 < h.m5@.len() <= TRADES_MAX,
        m@.len() == h.m5@.len(),
        measures_ok(m@),
        cfg.ok(),
    ensures
        is_report_of(*h, m@, *t, *cfg, *set, r),
        covers(r, h.m5@.len() as int),
        r.adds_up(),
        r.ok(),
{
    let bars: Vec<Bar> = h.bars_of(m, t);
    let last: Candle = h.m5[h.m5.len() - 1];
    assert(h.m5@[h.m5@.len() - 1].ok());
    let r: BacktestReport = run_backtest(&bars, &last, cfg, set);
    proof {
        assert(h.is_bars(m@, *t, m@.len() as int, bars@));
        law_report_covers_the_history(*h, m@, *t, *cfg, *set, r);
    }
    r
}

/// The points of a curve up to a time.
pub open spec fn samples_until(curve: Seq<CurvePoint>, time: int) -> Seq<CurvePoint> {
    curve.filter(|p: CurvePoint| p.time_ms <= time)
}

/// The trades that were left up to a time, but for one that the end of the data
/// closed.
pub open spec fn trades_until(trades: Seq<TradeView>, time: int) -> Seq<TradeView> {
    trades.filter(
        |t: TradeView|
            t.exit_time_ms is Some && t.exit_time_ms->0 <= time && t.exit_reason != Some(
                "end_of_data"@,
            ),
    )
}

/// What is left out at the end of a list does not change what is picked from it.
proof fn lemma_filter_tail<X>(s: Seq<X>, p: spec_fn(X) -> bool, n: int)
    requires
        0 <= n <= s.len(),
        forall|i: int| n <= i < s.len() ==> !p(#[trigger] s[i]),
    ensures
        s.filter(p) == s.take(n).filter(p),
    decreases s.len(),
{
    reveal(Seq::filter);
    if n < s.len() {
        let d = s.drop_last();
        assert(!p(s[s.len() - 1]));
        assert forall|i: int| n <= i < d.len() implies !p(#[trigger] d[i]) by {
            assert(d[i] == s[i]);
        }
        lemma_filter_tail(d, p, n);
        assert(d.take(n) =~= s.take(n));
    } else {
        assert(s.take(n) =~= s);
    }
}

/// What a replay yields up to a time depends on the bars up to that time alone.
proof fn lemma_replay_until(
    v: Seq<Bar>,
    n: int,
    last: Candle,
    cfg: BacktestConfig,
    set: SignalSettings,
    time: int,
)
    requires
        0 <= n <= v.len(),
        forall|j: int| n <= j < v.len() ==> candle_ms((#[trigger] v[j]).candle) > time,
    ensures
        ({
            let whole = replayed(v, v.len() as int, cfg, set).finished(last, cfg);
            let part = replayed(v, n, cfg, set);
            &&& samples_until(whole.equity_curve, time) == samples_until(part.equity_curve, time)
            &&& samples_until(whole.drawdown_curve, time) == samples_until(
                part.drawdown_curve,
                time,
            )
            &&& trades_until(whole.trades, time) == trades_until(part.trades, time)
        }),
{
    let len = v.len() as int;
    let all = replayed(v, len, cfg, set);
    let whole = all.finished(last, cfg);
    let part = replayed(v, n, cfg, set);
    law_curves_follow_the_bars(v, len, cfg, set);
    lemma_curves_only_grow(v, n, len, cfg, set);
    law_trades_are_only_added(v, n, len, cfg, set);
    let early = |p: CurvePoint| p.time_ms <= time;
    assert forall|i: int| n <= i < whole.equity_curve.len() implies !early(
        #[trigger] whole.equity_curve[i],
    ) by {
        assert(candle_ms(v[i].candle) > time);
    }
    assert forall|i: int| n <= i < whole.drawdown_curve.len() implies !early(
        #[trigger] whole.drawdown_curve[i],
    ) by {
        assert(candle_ms(v[i].candle) > time);
    }
    lemma_filter_tail(whole.equity_curve, early, n);
    lemma_filter_tail(whole.drawdown_curve, early, n);
    let left = |t: TradeView|
        t.exit_time_ms is Some && t.exit_time_ms->0 <= time && t.exit_reason != Some(
            "end_of_data"@,
        );
    let k = part.trades.len() as int;
    assert forall|i: int| k <= i < whole.trades.len() implies !left(#[trigger] whole.trades[i]) by {
        if i < all.trades.len() {
            law_later_trades_end_later(v, n, len, cfg, set, i);
            assert(whole.trades[i] == all.trades[i]);
        } else {
            assert(whole.trades[i].exit_reason == Some("end_of_data"@));
        }
    }
    lemma_filter_tail(whole.trades, left, k);
    assert(whole.trades.take(k) =~= all.trades.take(k));
}

/// The curves of a prefix of the bars are the first points of the whole.
proof fn lemma_curves_only_grow(
    v: Seq<Bar>,
    n: int,
    m: int,
    cfg: BacktestConfig,
    set: SignalSettings,
)
    requires
        0 <= n <= m <= v.len(),
    ensures
        replayed(v, m, cfg, set).equity_curve.len() == m,
        replayed(v, m, cfg, set).drawdown_curve.len() == m,
        replayed(v, m, cfg, set).equity_curve.take(n) == replayed(v, n, cfg, set).equity_curve,
        replayed(v, m, cfg, set).drawdown_curve.take(n) == replayed(v, n, cfg, set).drawdown_curve,
    decreases m - n,
{
    law_curves_follow_the_bars(v, m, cfg, set);
    let a = replayed(v, n, cfg, set);
    let b = replayed(v, m, cfg, set);
    if n == m {
        assert(b.equity_curve.take(n) =~= a.equity_curve);
        assert(b.drawdown_curve.take(n) =~= a.drawdown_curve);
    } else {
        lemma_curves_only_grow(v, n, m - 1, cfg, set);
        let mid = replayed(v, m - 1, cfg, set);
        assert(b.equity_curve.take(n) =~= mid.equity_curve.take(n));
        assert(b.drawdown_curve.take(n) =~= mid.drawdown_curve.take(n));
    }
}

/// A backtest does not look ahead. Two histories that are the same up to the
/// five-minute candle at `k`, and in the other intervals up to and with the first
/// candle that opens at its time or later, have the same curves up to that time, and
/// the same trades among those that were left by then, whatever comes later and
/// whatever way the measures are taken.
pub proof fn law_backtest_does_not_look_ahead(
    a: History,
    b: History,
    ma: Seq<Option<Measures>>,
    mb: Seq<Option<Measures>>,
    f: spec_fn(Seq<Candle>) -> Option<Measures>,
    t: RegimeThresholds,
    cfg: BacktestConfig,
    set: SignalSettings,
    ra: BacktestReport,
    rb: BacktestReport,
    k: int,
)
    requires
        same_through(a, b, k),
        in_order(a.m5@),
        in_order(b.m5@),
        a.measured_by(ma, f),
        b.measured_by(mb, f),
        is_report_of(a, ma, t, cfg, set, ra),
        is_report_of(b, mb, t, cfg, set, rb),
    ensures
        ({
            let time = a.m5@[k].open_time as int;
            &&& samples_until(ra.equity_curve@, time) == samples_until(rb.equity_curve@, time)
            &&& samples_until(ra.drawdown_curve@, time) == samples_until(rb.drawdown_curve@, time)
            &&& trades_until(trade_views(ra.trades@), time) == trades_until(
                trade_views(rb.trades@),
                time,
            )
        }),
{
    let time = a.m5@[k].open_time as int;
    let va = choose|v: Seq<Bar>| #[trigger]
        a.is_bars(ma, t, ma.len() as int, v) && ra.reports(v, a.m5@.last(), cfg, set);
    let vb = choose|v: Seq<Bar>| #[trigger]
        b.is_bars(mb, t, mb.len() as int, v) && rb.reports(v, b.m5@.last(), cfg, set);
    law_bars_do_not_look_ahead(a, b, ma, mb, f, t, va, vb, k);
    let n = if time < 0 {
        0
    } else {
        a.bar_count(ma, k + 1)
    };
    assert(a.m5@.take(k + 1)[k] == b.m5@.take(k + 1)[k]);
    lemma_later_bars_come_later(a, ma, t, va, k, n);
    lemma_later_bars_come_later(b, mb, t, vb, k, n);
    lemma_replays_agree(va, vb, n, a.m5@.last(), b.m5@.last(), cfg, set, time);
}

/// Two replays with the same bars up to a time yield the same up to it.
proof fn lemma_replays_agree(
    va: Seq<Bar>,
    vb: Seq<Bar>,
    n: int,
    last_a: Candle,
    last_b: Candle,
    cfg: BacktestConfig,
    set: SignalSettings,
    time: int,
)
    requires
        0 <= n <= va.len(),
        n <= vb.len(),
        forall|j: int| 0 <= j < n ==> va[j] == #[trigger] vb[j],
        forall|j: int| n <= j < va.len() ==> candle_ms((#[trigger] va[j]).candle) > time,
        forall|j: int| n <= j < vb.len() ==> candle_ms((#[trigger] vb[j]).candle) > time,
    ensures
        ({
            let a = replayed(va, va.len() as int, cfg, set).finished(last_a, cfg);
            let b = replayed(vb, vb.len() as int, cfg, set).finished(last_b, cfg);
            &&& samples_until(a.equity_curve, time) == samples_until(b.equity_curve, time)
            &&& samples_until(a.drawdown_curve, time) == samples_until(b.drawdown_curve, time)
            &&& trades_until(a.trades, time) == trades_until(b.trades, time)
        }),
{
    law_no_bar_looks_ahead(va, vb, n, cfg, set);
    lemma_replay_until(va, n, last_a, cfg, set, time);
    lemma_replay_until(vb, n, last_b, cfg, set, time);
}

/// The bars after those of the candle at `k` open later.
proof fn lemma_later_bars_come_later(
    h: History,
    m: Seq<Option<Measures>>,
    t: RegimeThresholds,
    v: Seq<Bar>,
    k: int,
    n: int,
)
    requires
        0 <= k < m.len() == h.m5@.len(),
        in_order(h.m5@),
        h.is_bars(m, t, m.len() as int, v),
        n == (if h.m5@[k].open_time < 0 {
            0
        } else {
            h.bar_count(m, k + 1)
        }),
    ensures
        forall|j: int|
            n <= j < v.len() ==> candle_ms((#[trigger] v[j]).candle) > h.m5@[k].open_time,
{
    assert forall|j: int| n <= j < v.len() implies candle_ms((#[trigger] v[j]).candle)
        > h.m5@[k].open_time by {
        if h.m5@[k].open_time >= 0 {
            let i = law_later_bars_are_of_later_candles(h, m, t, v, k + 1, j);
            assert(h.m5@[k].open_time < h.m5@[i].open_time);
        }
    }
}

/// One part of a walk: a window, the time at which its test starts, and its name.
pub struct WalkPart {
    pub window: WalkWindow,
    pub test_ms: u64,
    pub label: String,
}

/// Whether `p` is the part at position `w` of a walk in `n` windows.
pub open spec fn is_part(h: History, n: int, test_fraction: int, w: int, p: WalkPart) -> bool {
    &&& p.window == walk_window(h.m5@.len() as int, n, w, test_share(test_fraction))
    &&& p.test_ms == candle_ms(h.m5@[p.window.test_start as int])
    &&& p.label@ == window_text(w as nat, p.test_ms)
}

/// The parts of a walk through a history: one for each window, in their order. There
/// are none where there is no candle of one of the other intervals.
pub fn walk_parts(h: &History, n_windows: usize, test_fraction: i128) -> (r: Result<
    Vec<WalkPart>,
    WalkError,
>)
    ensures
        match r {
            Ok(v) => {
                &&& walk_refusal(h.m5@.len() as int, n_windows as int) is None
                &&& v@.len() == (if h.m1@.len() == 0 || h.h1@.len() == 0 {
                    0
                } else {
                    n_windows as int
                })
                &&& forall|w: int|
                    0 <= w < v@.len() ==> is_part(
                        *h,
                        n_windows as int,
                        test_fraction as int,
                        w,
                        #[trigger] v@[w],
                    )
                &&& forall|w: int|
                    0 <= w < v@.len() ==> (#[trigger] v@[w]).window.start
                        <= v@[w].window.test_start < v@[w].window.end <= h.m5@.len()
            },
            Err(e) => walk_refusal(h.m5@.len() as int, n_windows as int) == Some(e),
        },
{
    let windows: Vec<WalkWindow> = match walk_windows(h.m5.len(), n_windows, test_fraction) {
        Ok(v) => v,
        Err(e) => return Err(e),
    };
    let mut parts: Vec<WalkPart> = Vec::new();
    if h.m1.len() == 0 || h.h1.len() == 0 {
        return Ok(parts);
    }
    let mut i: usize = 0;
    while i < windows.len()
        invariant
            i <= windows@.len() == n_windows,
            parts@.len() == i,
            walk_refusal(h.m5@.len() as int, n_windows as int) is None,
            windows@ == Seq::new(
                n_windows as nat,
                |w: int| walk_window(
                    h.m5@.len() as int,
                    n_windows as int,
                    w,
                    test_share(test_fraction as int),
                ),
            ),
            forall|w: int|
                0 <= w < i ==> is_part(
                    *h,
                    n_windows as int,
                    test_fraction as int,
                    w,
                    #[trigger] parts@[w],
                ),
            forall|w: int|
                0 <= w < i ==> (#[trigger] parts@[w]).window.start <= parts@[w].window.test_start
                    < parts@[w].window.end <= h.m5@.len(),
        decreases windows@.len() - i,
    {
        let window: WalkWindow = windows[i];
        proof {
            lemma_window_is_within(*h, n_windows as int, i as int, test_fraction as int);
        }
        let test_ms: u64 = time_of(&h.m5[window.test_start]);
        let label: String = window_label(i, test_ms);
        parts.push(WalkPart { window, test_ms, label });
        i += 1;
    }
    Ok(parts)
}

proof fn lemma_window_is_within(h: History, n: int, w: int, test_fraction: int)
    requires
        0 <= w < n,
        walk_refusal(h.m5@.len() as int, n) is None,
    ensures
        ({
            let x = walk_window(h.m5@.len() as int, n, w, test_share(test_fraction));
            x.start <= x.test_start < x.end <= h.m5@.len()
        }),
    decreases n - w,
{
    assert(h.m5.len() == h.m5@.len());
    law_windows_tile_the_data(h.m5@.len() as int, n, w, test_fraction);
    if w + 1 < n {
        lemma_window_is_within(h, n, w + 1, test_fraction);
    }
}

/// Whether `r` keeps of the report of a history the trades from `from_ms` on.
pub open spec fn is_test_report_of(
    h: History,
    m: Seq<Option<Measures>>,
    t: RegimeThresholds,
    cfg: BacktestConfig,
    set: SignalSettings,
    from_ms: u64,
    r: BacktestReport,
) -> bool {
    exists|whole: BacktestReport| #[trigger]
        is_report_of(h, m, t, cfg, set, whole) && r.keeps(whole, from_ms)
}

/// Replays the history of one window and keeps the trades of its test.
pub fn test_window(
    h: &History,
    m: &Vec<Option<Measures>>,
    t: &RegimeThresholds,
    cfg: &BacktestConfig,
    set: &SignalSettings,
    test_ms: u64,
) -> (r: BacktestReport)
    requires
        h.ok(),
        0 < h.m5@.len() <= TRADES_MAX,
        m@.len() == h.m5@.len(),
        measures_ok(m@),
        cfg.ok(),
    ensures
        is_test_report_of(*h, m@, *t, *cfg, *set, test_ms, r),
        covers(r, h.m5@.len() as int),
        forall|i: int|
            0 <= i < r.trades@.len() ==> (#[trigger] r.trades@[i]).entry_time_ms >= test_ms,
        r.adds_up(),
        r.ok(),
{
    let whole: BacktestReport = backtest_history(h, m, t, cfg, set);
    let ghost before = whole;
    let r: BacktestReport = keep_test_trades(whole, test_ms);
    proof {
        assert(is_report_of(*h, m@, *t, *cfg, *set, before));
        let views = trade_views(before.trades@);
        let n = before.trades@.len() as int;
        assert forall|i: int| 0 <= i < r.trades@.len() implies (
        #[trigger] r.trades@[i]).entry_time_ms >= test_ms by {
            assert(trade_views(r.trades@)[i] == entered_from(views, test_ms, n)[i]);
            law_test_trades_enter_in_the_test(views, test_ms, n, i);
        }
    }
    r
}

} // verus!
