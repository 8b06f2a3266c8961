//! What a simulation comes to: theorems about [`crate::backtest`].
use crate::backtest::{
    candle_ms, Bar, BacktestConfig, SimPositionView, SimView,
};
use crate::features::Candle;
use crate::fixed::{
    lemma_round_div_error, lemma_round_div_exact, lemma_round_div_monotone, saturated, times, LIMIT,
    ONE,
};
use crate::signals::{
    law_best_strategy_enters, law_entries_are_ranked, Action, SignalSettings,
};
use crate::state::PositionDecision;
use crate::tick::TickView;
use vstd::prelude::*;

verus! {

/// What a simulated entry loses down to its stop is what it may risk: the share of the equity
/// or the absolute amount, whichever is less, to the rounding of the quantity. It is less only
/// where the cap on its value holds it back.
pub proof fn law_entry_risks_what_it_may(v: SimView, price: int, stop: int, cfg: BacktestConfig)
    requires
        0 <= v.equity <= LIMIT,
        0 <= cfg.risk_fraction <= ONE,
        0 <= cfg.max_notional_fraction <= ONE,
        0 <= cfg.max_risk_usdt <= LIMIT,
        price > 0,
        stop < price,
        v.entry_qty(price, stop, cfg) < LIMIT,
    ensures
        ({
            let qty = v.entry_qty(price, stop, cfg);
            let d = price - stop;
            let loss = qty * d;
            let share = v.equity * cfg.risk_fraction;
            let most = cfg.max_risk_usdt * ONE;
            let cap = v.equity * cfg.max_notional_fraction;
            &&& qty >= 0
            &&& 2 * loss <= 2 * most + d || 2 * (qty * price) <= 2 * cap + ONE + price
            &&& 2 * loss <= 2 * share + ONE + d || 2 * (qty * price) <= 2 * cap + ONE + price
            &&& {
                ||| 2 * loss >= 2 * share - ONE - d
                ||| 2 * loss >= 2 * most - d
                ||| 2 * (qty * price) >= 2 * cap - ONE - price
            }
        }),
{
    let e = v.equity;
    let f = cfg.risk_fraction as int;
    let n = cfg.max_notional_fraction as int;
    let d = price - stop;
    let share = e * f;
    let cap2 = e * n;
    assert(0 <= share <= e * ONE && 0 <= cap2 <= e * ONE) by (nonlinear_arith)
        requires
            share == e * f,
            cap2 == e * n,
            e >= 0,
            0 <= f <= ONE,
            0 <= n <= ONE,
    ;
    lemma_round_div_error(share, ONE as int);
    lemma_round_div_error(cap2, ONE as int);
    lemma_round_div_monotone(0, share, ONE as int);
    lemma_round_div_monotone(0, cap2, ONE as int);
    lemma_round_div_exact(0, ONE as int);
    lemma_round_div_monotone(share, e * ONE, ONE as int);
    lemma_round_div_monotone(cap2, e * ONE, ONE as int);
    lemma_round_div_exact(e, ONE as int);
    let risk_a = crate::fixed::times(e, f);
    let risk = if risk_a <= cfg.max_risk_usdt {
        risk_a
    } else {
        cfg.max_risk_usdt as int
    };
    let cap = crate::fixed::times(e, n);
    lemma_round_div_error(risk * ONE, d);
    lemma_round_div_monotone(0, risk * ONE, d);
    lemma_round_div_exact(0, d);
    lemma_round_div_error(cap * ONE, price);
    lemma_round_div_monotone(0, cap * ONE, price);
    lemma_round_div_exact(0, price);
    let raw = crate::fixed::quotient(risk, d);
    let small = crate::fixed::quotient(cap, price);
    let kept = if raw < LIMIT {
        raw
    } else {
        LIMIT as int
    };
    let qty = v.entry_qty(price, stop, cfg);
    if cap > 0 && kept * price > cap * ONE {
        assert(qty == small);
    } else {
        assert(qty == raw);
    }
}

/// A simulated entry happens on a signal, for at least five USDT, and is what was planned: at
/// the close made worse by the slippage, with the fee of its value, the stop of the signal,
/// and the take-profit three times as far over the close as the stop is under it. The account
/// pays when it leaves.
pub proof fn law_simulated_entry(v: SimView, bar: Bar, cfg: BacktestConfig, set: SignalSettings)
    requires
        v.open is None,
        0 < bar.candle.close < LIMIT,
        0 <= cfg.slippage_pct <= ONE,
        v.entered_in(bar, cfg, set).open is Some,
    ensures
        ({
            let after = v.entered_in(bar, cfg, set);
            let p = after.open->0;
            let price = bar.candle.close as int;
            let sig = SimView::signal(bar, set);
            &&& sig.action == Action::EnterLong
            &&& p.qty > 0
            &&& price * p.qty >= 5_000_000_000_000_000_000_000_000
            &&& p.stop_price < price
            &&& -LIMIT <= sig.stop_price->0 ==> p.stop_price == sig.stop_price->0
            &&& p.tp_price is Some
            &&& price + 3 * (price - p.stop_price) <= LIMIT ==> p.tp_price->0 - price == 3 * (price
                - p.stop_price)
            &&& p.entry_price >= price
            &&& p.entry_price < LIMIT ==> -ONE <= 2 * ((p.entry_price - price) * ONE - price
                * cfg.slippage_pct) <= ONE
            &&& p.peak_price == p.entry_price
            &&& p.entry_time_ms == candle_ms(bar.candle)
            &&& p.last_peak_time_ms == candle_ms(bar.candle)
            &&& p.regime == bar.reading.regime
            &&& p.strategy == sig.strategy
            &&& p.mfe_price == 0 && p.mae_price == 0
            &&& after.equity == v.equity
            &&& after.peak_equity == v.peak_equity
            &&& after.trades == v.trades
        }),
{
    reveal(SimView::signal);
    let r = bar.reading;
    law_entries_are_ranked(
        r.regime,
        bar.features,
        bar.candle.close as int,
        r.vol_ratio as int,
        r.vol_squeeze,
        r.htf_bullish,
        r.bearish_bias,
        set,
    );
    if !r.bearish_bias {
        law_best_strategy_enters(
            r.regime,
            bar.features,
            bar.candle.close as int,
            r.vol_ratio as int,
            r.vol_squeeze,
            r.htf_bullish,
            set,
        );
    }
    let price = bar.candle.close as int;
    let s = price * cfg.slippage_pct;
    assert(0 <= s <= price * ONE) by (nonlinear_arith)
        requires
            s == price * cfg.slippage_pct,
            price > 0,
            0 <= cfg.slippage_pct <= ONE,
    ;
    lemma_round_div_error(s, ONE as int);
    lemma_round_div_monotone(0, s, ONE as int);
    lemma_round_div_exact(0, ONE as int);
    lemma_round_div_monotone(s, price * ONE, ONE as int);
    lemma_round_div_exact(price, ONE as int);
    let qty = v.entry_qty(price, crate::fixed::saturated(SimView::signal(bar, set).stop_price->0), cfg);
    assert(-LIMIT <= qty <= LIMIT);
}

/// Fees are a fraction of the value: the entry pays the fee rate on its quantity at its price,
/// and leaving pays it on the quantity at the exit price, to one step for each factor.
pub proof fn law_fees_are_a_fraction_of_the_value(
    p: SimPositionView,
    exit_price: int,
    cfg: BacktestConfig,
)
    requires
        0 <= p.qty <= LIMIT,
        0 <= exit_price <= LIMIT,
        0 <= cfg.fee_rate <= ONE,
        p.qty * exit_price <= (LIMIT - 1) * ONE,
    ensures
        ({
            let fee = p.exit_fee(exit_price, cfg);
            let value = p.qty * exit_price;
            &&& 0 <= fee
            &&& -2 * (ONE * ONE) <= 2 * (fee * (ONE * ONE) - value * cfg.fee_rate) <= 2 * (ONE * ONE)
        }),
{
    let value = p.qty * exit_price;
    assert(value >= 0) by (nonlinear_arith)
        requires
            value == p.qty * exit_price,
            p.qty >= 0,
            exit_price >= 0,
    ;
    let w = crate::fixed::times(p.qty as int, exit_price);
    lemma_round_div_error(value, ONE as int);
    lemma_round_div_monotone(0, value, ONE as int);
    lemma_round_div_exact(0, ONE as int);
    lemma_round_div_monotone(value, (LIMIT - 1) * ONE, ONE as int);
    lemma_round_div_exact(LIMIT - 1, ONE as int);
    let r = cfg.fee_rate as int;
    let wr = w * r;
    assert(0 <= wr <= w * ONE) by (nonlinear_arith)
        requires
            wr == w * r,
            w >= 0,
            0 <= r <= ONE,
    ;
    lemma_round_div_error(wr, ONE as int);
    lemma_round_div_monotone(0, wr, ONE as int);
    lemma_round_div_monotone(wr, w * ONE, ONE as int);
    lemma_round_div_exact(w, ONE as int);
    let fee = p.exit_fee(exit_price, cfg);
    let vr = value * r;
    assert(-(ONE * r) <= 2 * (wr * ONE - vr) <= ONE * r) by (nonlinear_arith)
        requires
            wr == w * r,
            vr == value * r,
            -ONE <= 2 * (w * ONE - value) <= ONE,
            r >= 0,
    ;
    assert(ONE * r <= ONE * ONE) by (nonlinear_arith)
        requires
            r <= ONE,
    ;
    assert(fee * (ONE * ONE) == (fee * ONE) * ONE) by (nonlinear_arith);
}

/// A simulated position is left at its stop where the low reaches it, else at its take-profit
/// where the high reaches it, else at the close where the manager says so; else it stays.
pub proof fn law_exits_come_in_order(p: SimPositionView, bar: Bar, cfg: BacktestConfig)
    ensures
        ({
            let x = p.exit_in(bar, cfg);
            let stopped = bar.candle.low <= p.stop_price;
            let taken = p.tp_price is Some && bar.candle.high >= p.tp_price->0;
            let judged = p.judged(bar, cfg).decision == PositionDecision::ExitLong;
            &&& stopped ==> x == Some((p.stop_price, "stop_hit"@))
            &&& !stopped && taken ==> x == Some((p.tp_price->0, "tp_hit"@))
            &&& !stopped && !taken && judged ==> x is Some && (x->0).0 == bar.candle.close
            &&& !stopped && !taken && !judged ==> x is None
        }),
{
}

/// A position that stays is watched: its best and its worst excursion follow the high and the
/// low of each bar and never shrink, and its entry, its quantity, its fee and its take-profit
/// stay what they were.
pub proof fn law_watched_position_keeps_its_terms(p: SimPositionView, bar: Bar, cfg: BacktestConfig)
    requires
        p.ok(),
        bar.ok(),
        0 <= p.mfe_price,
        0 <= p.mae_price,
        -LIMIT <= bar.candle.high - p.entry_price <= LIMIT,
        -LIMIT <= p.entry_price - bar.candle.low <= LIMIT,
    ensures
        ({
            let q = p.watched(bar, cfg);
            &&& q.entry_price == p.entry_price
            &&& q.qty == p.qty
            &&& q.entry_fee == p.entry_fee
            &&& q.tp_price == p.tp_price
            &&& q.entry_time_ms == p.entry_time_ms
            &&& q.strategy == p.strategy
            &&& q.regime == p.regime
            &&& q.mfe_price >= p.mfe_price
            &&& q.mfe_price >= bar.candle.high - p.entry_price
            &&& q.mfe_price == p.mfe_price || q.mfe_price == bar.candle.high - p.entry_price
            &&& q.mae_price >= p.mae_price
            &&& q.mae_price >= p.entry_price - bar.candle.low
            &&& q.mae_price == p.mae_price || q.mae_price == p.entry_price - bar.candle.low
        }),
{
}

/// The drawdown is how far the equity is under its peak, as a percentage of the peak, to a
/// hundred steps; without a peak there is none.
pub proof fn law_drawdown_is_measured_from_the_peak(v: SimView)
    requires
        v.equity <= v.peak_equity,
        v.peak_equity <= LIMIT,
        -LIMIT <= v.equity,
    ensures
        v.peak_equity <= 0 ==> v.drawdown_pct() == 0,
        v.equity == v.peak_equity ==> v.drawdown_pct() == 0,
        v.peak_equity > 0 && 0 <= v.equity ==> {
            &&& v.drawdown_pct() >= 0
            &&& -100 * v.peak_equity <= 2 * (v.drawdown_pct() * v.peak_equity - 100 * (v.peak_equity
                - v.equity) * ONE) <= 100 * v.peak_equity
        },
{
    let k = v.peak_equity;
    if k > 0 {
        let g = (k - v.equity) * ONE;
        lemma_round_div_error(g, k);
        lemma_round_div_monotone(0, g, k);
        lemma_round_div_exact(0, k);
        let q = crate::fixed::quotient(k - v.equity, k);
        if v.equity >= 0 {
            assert(g <= ONE * k) by (nonlinear_arith)
                requires
                    g == (k - v.equity) * ONE,
                    v.equity >= 0,
            ;
            lemma_round_div_monotone(g, ONE * k, k);
            lemma_round_div_exact(ONE as int, k);
            assert((100 * q) * k == 100 * (q * k)) by (nonlinear_arith);
        }
    }
}

/// Each bar adds one point to both curves, at its time: the equity, and its drawdown. What is
/// left of a position adds one trade, and raises the peak only where the equity does.
pub proof fn law_each_bar_is_sampled(v: SimView, bar: Bar, cfg: BacktestConfig, set: SignalSettings)
    requires
        -LIMIT <= v.equity <= LIMIT,
        -LIMIT <= v.peak_equity <= LIMIT,
    ensures
        ({
            let m = v.managed_in(bar, cfg);
            let after = v.after_bar(bar, cfg, set);
            &&& after.equity_curve == v.equity_curve.push(after.equity_curve.last())
            &&& after.drawdown_curve == v.drawdown_curve.push(after.drawdown_curve.last())
            &&& after.equity_curve.last().time_ms == candle_ms(bar.candle)
            &&& after.drawdown_curve.last().time_ms == candle_ms(bar.candle)
            &&& after.equity_curve.last().value == m.equity
            &&& after.drawdown_curve.last().value == m.drawdown_pct()
            &&& after.equity == m.equity
            &&& v.open is None ==> after.trades == v.trades && after.equity == v.equity
            &&& after.trades.len() <= v.trades.len() + 1
            &&& after.peak_equity >= v.peak_equity
            &&& after.peak_equity == v.peak_equity || after.peak_equity == after.equity
            &&& after.trades == v.trades ==> after.equity == v.equity
        }),
{
    let after = v.after_bar(bar, cfg, set);
    assert(after.equity_curve =~= v.equity_curve.push(after.equity_curve.last()));
    assert(after.drawdown_curve =~= v.drawdown_curve.push(after.drawdown_curve.last()));
    assert(v.trades.push(arbitrary()).len() != v.trades.len());
}

/// The simulation trades on the signal that the bot would trade on.
pub proof fn law_simulation_signals_as_the_bot_does(bar: Bar, set: SignalSettings, t: TickView)
    requires
        t.base.market.price == bar.candle.close,
        t.base.features == bar.features,
        t.base.reading == bar.reading,
        t.base.set.signals == set,
    ensures
        SimView::signal(bar, set) == t.signal(),
{
    reveal(SimView::signal);
    reveal(TickView::signal);
}

/// Where the data ends, a position that is still open is closed at the last close, with the
/// reason of that; nothing else is touched.
pub proof fn law_end_of_data_closes_the_position(v: SimView, last: Candle, cfg: BacktestConfig)
    ensures
        ({
            let end = v.finished(last, cfg);
            &&& end.open is None
            &&& v.open is None ==> end == v
            &&& v.open is Some ==> {
                let t = end.trades.last();
                &&& end.trades == v.trades.push(t)
                &&& t.exit_price == Some(last.close)
                &&& t.exit_time_ms == Some(candle_ms(last))
                &&& t.exit_reason == Some("end_of_data"@)
                &&& t.entry_price == v.open->0.entry_price
                &&& t.qty == v.open->0.qty
                &&& t.strategy == v.open->0.strategy
                &&& t.regime == v.open->0.regime
            }
            &&& end.equity_curve == v.equity_curve
            &&& end.drawdown_curve == v.drawdown_curve
        }),
{
    if v.open is Some {
        let end = v.finished(last, cfg);
        assert(end.trades =~= v.trades.push(end.trades.last()));
    }
}

/// A trade that a bar closes is told as it was: the entry of the position, the exit at its
/// price and time, and the slippage of both ways.
pub proof fn law_closed_trade_tells_the_position(
    v: SimView,
    bar: Bar,
    cfg: BacktestConfig,
)
    requires
        v.open is Some,
        v.open->0.exit_in(bar, cfg) is Some,
    ensures
        ({
            let p = v.open->0;
            let x = p.exit_in(bar, cfg)->0;
            let after = v.managed_in(bar, cfg);
            let t = after.trades.last();
            &&& after.open is None
            &&& after.trades.len() == v.trades.len() + 1
            &&& t.entry_price == p.entry_price
            &&& t.qty == p.qty
            &&& t.entry_time_ms == p.entry_time_ms
            &&& t.strategy == p.strategy
            &&& t.regime == p.regime
            &&& t.score == p.score
            &&& t.exit_price == Some(x.0)
            &&& t.exit_reason == Some(x.1)
            &&& t.exit_time_ms == Some(candle_ms(bar.candle))
            &&& t.entry_fee_usdt == Some(p.entry_fee)
        }),
{
}

/// Whether a number is the given amount of `10^-24`, to half a step.
pub open spec fn is_rounded(n: int, x: int) -> bool {
    -1_000_000_000_000 <= 2 * (n * 1_000_000_000_000 - x) <= 1_000_000_000_000
}

/// Whether `c` is what slips on a quantity, where `x` is the price times the fraction that
/// slips: the slippage of the price is rounded, and so is its product with the quantity.
pub open spec fn is_slippage(x: int, qty: int, c: int) -> bool {
    exists|s: int| #[trigger] is_rounded(s, x) && is_rounded(c, s * qty)
}

proof fn lemma_slippage(price: int, pct: int, qty: int)
    requires
        0 <= price <= LIMIT,
        0 <= pct <= ONE,
        0 <= qty,
    ensures
        ({
            let s = times(price, pct);
            let c = times(s, qty);
            &&& 0 <= s <= price
            &&& 0 <= c <= LIMIT
            &&& is_rounded(s, price * pct)
            &&& c < LIMIT ==> is_rounded(c, s * qty)
            &&& c < LIMIT ==> is_slippage(price * pct, qty, c)
        }),
{
    let one = ONE as int;
    let x = price * pct;
    assert(0 <= x <= price * one) by (nonlinear_arith)
        requires
            x == price * pct,
            0 <= pct <= one,
            price >= 0,
    ;
    lemma_round_div_error(x, one);
    lemma_round_div_exact(0, one);
    lemma_round_div_exact(price, one);
    lemma_round_div_monotone(0, x, one);
    lemma_round_div_monotone(x, price * one, one);
    let s = times(price, pct);
    let y = s * qty;
    assert(y >= 0) by (nonlinear_arith)
        requires
            y == s * qty,
            s >= 0,
            qty >= 0,
    ;
    lemma_round_div_error(y, one);
    lemma_round_div_monotone(0, y, one);
    assert(is_rounded(s, x));
}

/// Leaving a position adds its fee and its slippage to the totals, and its record tells what
/// slipped on both ways.
pub proof fn law_leaving_books_its_costs(
    v: SimView,
    p: SimPositionView,
    exit_price: i128,
    reason: Seq<char>,
    now_ms: u64,
    cfg: BacktestConfig,
)
    requires
        0 <= exit_price <= LIMIT,
        0 <= p.entry_price <= LIMIT,
        0 <= p.qty <= LIMIT,
        0 <= cfg.slippage_pct <= ONE,
        v.total_slippage >= 0,
        -LIMIT <= v.total_fees + p.exit_fee(exit_price as int, cfg) <= LIMIT,
        v.left(p, exit_price, reason, now_ms, cfg).total_slippage < LIMIT,
        v.left(p, exit_price, reason, now_ms, cfg).trades.last().slippage_usdt->0 < LIMIT,
    ensures
        ({
            let after = v.left(p, exit_price, reason, now_ms, cfg);
            let t = after.trades.last();
            let slipped = after.total_slippage - v.total_slippage;
            &&& after.total_fees - v.total_fees == p.exit_fee(exit_price as int, cfg)
            &&& is_slippage(exit_price * cfg.slippage_pct, p.qty as int, slipped)
            &&& t.slippage_usdt is Some
            &&& is_slippage(
                p.entry_price * cfg.slippage_pct,
                p.qty as int,
                t.slippage_usdt->0 - slipped,
            )
            &&& after.trades.len() == v.trades.len() + 1
            &&& after.open is None
        }),
{
    lemma_slippage(exit_price as int, cfg.slippage_pct as int, p.qty as int);
    lemma_slippage(p.entry_price as int, cfg.slippage_pct as int, p.qty as int);
}

/// Entering adds the fee of the position to the totals, and what slipped: the quantity times
/// what was paid over the market price. The fee is the fee rate on the value of the entry.
pub proof fn law_entering_books_its_costs(
    v: SimView,
    bar: Bar,
    cfg: BacktestConfig,
    set: SignalSettings,
)
    requires
        v.open is None,
        v.entered_in(bar, cfg, set).open is Some,
        0 < bar.candle.close < LIMIT,
        0 <= cfg.slippage_pct <= ONE,
        0 <= cfg.fee_rate <= ONE,
        v.total_slippage >= 0,
        v.total_fees >= 0,
        v.entered_in(bar, cfg, set).total_slippage < LIMIT,
        v.entered_in(bar, cfg, set).total_fees < LIMIT,
        v.entered_in(bar, cfg, set).open->0.entry_price < LIMIT,
        v.entered_in(bar, cfg, set).open->0.qty * v.entered_in(bar, cfg, set).open->0.entry_price
            <= (LIMIT - 1) * ONE,
    ensures
        ({
            let after = v.entered_in(bar, cfg, set);
            let p = after.open->0;
            &&& after.total_fees - v.total_fees == p.entry_fee
            &&& is_rounded(
                after.total_slippage - v.total_slippage,
                (p.entry_price - bar.candle.close) * p.qty,
            )
            &&& exists|w: int| #[trigger]
                is_rounded(w, p.qty * p.entry_price) && is_rounded(
                    p.entry_fee as int,
                    w * cfg.fee_rate,
                )
        }),
{
    law_simulated_entry(v, bar, cfg, set);
    let price = bar.candle.close as int;
    let after = v.entered_in(bar, cfg, set);
    let p = after.open->0;
    let one = ONE as int;
    lemma_slippage(price, cfg.slippage_pct as int, p.qty as int);
    let value = p.qty * p.entry_price;
    assert(value >= 0) by (nonlinear_arith)
        requires
            value == p.qty * p.entry_price,
            p.qty >= 0,
            p.entry_price >= 0,
    ;
    lemma_round_div_error(value, one);
    lemma_round_div_exact(0, one);
    lemma_round_div_monotone(0, value, one);
    lemma_round_div_monotone(value, (LIMIT - 1) * one, one);
    lemma_round_div_exact(LIMIT - 1, one);
    let w = times(p.qty as int, p.entry_price as int);
    let r = cfg.fee_rate as int;
    let wr = w * r;
    assert(0 <= wr <= w * one) by (nonlinear_arith)
        requires
            wr == w * r,
            w >= 0,
            0 <= r <= one,
    ;
    lemma_round_div_error(wr, one);
    lemma_round_div_monotone(0, wr, one);
    lemma_round_div_monotone(wr, w * one, one);
    lemma_round_div_exact(w, one);
    assert(is_rounded(w, value));
}

/// A simulated entry is made exactly where a strategy enters, the quantity is positive and its
/// value at the market price is five or more; otherwise nothing changes.
pub proof fn law_simulation_enters_for_cause(
    v: SimView,
    bar: Bar,
    cfg: BacktestConfig,
    set: SignalSettings,
)
    requires
        v.open is None,
    ensures
        ({
            let after = v.entered_in(bar, cfg, set);
            let sig = SimView::signal(bar, set);
            let qty = v.entry_qty(
                bar.candle.close as int,
                saturated(sig.stop_price->0),
                cfg,
            );
            &&& after.open is Some <==> sig.action == Action::EnterLong && qty > 0
                && bar.candle.close * qty >= 5_000_000_000_000 * 1_000_000_000_000
            &&& after.open is None ==> after == v
        }),
{
}

} // verus!
