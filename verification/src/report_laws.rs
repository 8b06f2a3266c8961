//! What the charts and tables of a report show: theorems about [`crate::report`].
use crate::backtest::CurvePoint;
use crate::fixed::{
    lemma_round_div_error, lemma_round_div_exact, lemma_round_div_monotone, round_div, ONE,
};
use crate::metrics::ScoreBucket;
use crate::report::{
    bar_height, chart_x, chart_y, extent_of, greatest_value, inverted, least_value, ledger_minutes,
    ledger_return, ledger_text, net_of, pf_at_least, signed_text, tick_value, tick_y,
    trade_row_text, usdt_text, Extent, PAD_BOTTOM, PAD_LEFT, PAD_RIGHT, PAD_TOP,
};
use crate::telemetry::TradeView;
use crate::text::fixed_text;
use vstd::prelude::*;

verus! {

/// The least and the greatest value of a curve are two of its values, with all others between
/// them.
pub proof fn law_extremes_enclose_the_curve(c: Seq<CurvePoint>, n: int)
    requires
        1 <= n <= c.len(),
    ensures
        forall|i: int| 0 <= i < n ==> least_value(c, n) <= (#[trigger] c[i]).value,
        forall|i: int| 0 <= i < n ==> (#[trigger] c[i]).value <= greatest_value(c, n),
        exists|i: int| 0 <= i < n && (#[trigger] c[i]).value == least_value(c, n),
        exists|i: int| 0 <= i < n && (#[trigger] c[i]).value == greatest_value(c, n),
    decreases n,
{
    if n == 1 {
        assert(c[0].value == least_value(c, n) && c[0].value == greatest_value(c, n));
    } else {
        law_extremes_enclose_the_curve(c, n - 1);
        let i = choose|i: int| 0 <= i < n - 1 && (#[trigger] c[i]).value == least_value(c, n - 1);
        let j = choose|j: int| 0 <= j < n - 1 && (#[trigger] c[j]).value == greatest_value(c, n - 1);
        let low = if least_value(c, n) == least_value(c, n - 1) {
            i
        } else {
            n - 1
        };
        let high = if greatest_value(c, n) == greatest_value(c, n - 1) {
            j
        } else {
            n - 1
        };
        assert(c[low].value == least_value(c, n));
        assert(c[high].value == greatest_value(c, n));
    }
}

/// A chart reaches from its least value at the bottom to its greatest at the top and from its
/// first time at the left to its last at the right, and larger values are higher up.
pub proof fn law_chart_fills_its_frame(c: Seq<CurvePoint>, width: int, height: int, i: int)
    requires
        0 <= i < c.len(),
        c.len() >= 2,
        PAD_LEFT + PAD_RIGHT <= width,
        PAD_TOP + PAD_BOTTOM <= height,
        least_value(c, c.len() as int) < greatest_value(c, c.len() as int),
        greatest_value(c, c.len() as int) - least_value(c, c.len() as int) <= i128::MAX,
        c[0].time_ms < c[c.len() - 1].time_ms,
        c[0].time_ms <= c[i].time_ms <= c[c.len() - 1].time_ms,
    ensures
        ({
            let e = extent_of(c);
            &&& chart_y(e.low, e, height) == (height - PAD_BOTTOM) * ONE
            &&& chart_y(e.high, e, height) == PAD_TOP * ONE
            &&& PAD_TOP * ONE <= chart_y(c[i].value, e, height) <= (height - PAD_BOTTOM) * ONE
            &&& chart_x(c[0].time_ms, e, width) == PAD_LEFT * ONE
            &&& chart_x(c[c.len() - 1].time_ms, e, width) == (width - PAD_RIGHT) * ONE
            &&& PAD_LEFT * ONE <= chart_x(c[i].time_ms, e, width) <= (width - PAD_RIGHT) * ONE
        }),
{
    let n = c.len() as int;
    law_extremes_enclose_the_curve(c, n);
    let e = extent_of(c);
    let rise = e.rise as int;
    let span = e.span_ms as int;
    let one = ONE as int;
    let v = c[i].value as int;
    assert(e.low <= v <= e.high && rise == e.high - e.low);
    lemma_round_div_exact(0, rise);
    assert(rise * one == one * rise) by (nonlinear_arith);
    lemma_round_div_exact(one, rise);
    assert(0 <= (v - e.low) * one <= one * rise) by (nonlinear_arith)
        requires
            0 <= v - e.low <= rise,
            one >= 0,
    ;
    lemma_round_div_monotone(0, (v - e.low) * one, rise);
    lemma_round_div_monotone((v - e.low) * one, one * rise, rise);
    let h = height - PAD_TOP - PAD_BOTTOM;
    let k = round_div((v - e.low) * one, rise);
    assert(0 <= (one - k) * h <= one * h) by (nonlinear_arith)
        requires
            0 <= k <= one,
            h >= 0,
    ;
    assert((one - 0) * h == one * h && (one - one) * h == 0) by (nonlinear_arith);
    let w = width - PAD_LEFT - PAD_RIGHT;
    let t = c[i].time_ms - e.start_ms;
    lemma_round_div_exact(0, span);
    let most = w * one;
    assert(span * w * one == most * span) by (nonlinear_arith)
        requires
            most == w * one,
    ;
    lemma_round_div_exact(most, span);
    assert(0 <= t * w * one <= most * span) by (nonlinear_arith)
        requires
            0 <= t <= span,
            w >= 0,
            one >= 0,
            most == w * one,
    ;
    lemma_round_div_monotone(0, t * w * one, span);
    lemma_round_div_monotone(t * w * one, most * span, span);
    assert(0 * w * one == 0) by (nonlinear_arith);
}

/// The marks at the side are at quarters: the lowest one stands at the bottom for the least
/// value, the highest one at the top for the greatest.
pub proof fn law_marks_are_at_quarters(e: Extent, height: int, i: int)
    requires
        0 <= i <= 4,
    ensures
        tick_y(height, 0) == (height - PAD_BOTTOM) * ONE,
        tick_y(height, 4) == PAD_TOP * ONE,
        4 * (tick_y(height, 0) - tick_y(height, i)) == i * (height - PAD_TOP - PAD_BOTTOM) * ONE,
        tick_value(e, 0) == e.low,
        tick_value(e, 4) == e.low + e.rise,
        -2 <= 4 * (tick_value(e, i) - e.low) - i * e.rise <= 2,
{
    let h = height - PAD_TOP - PAD_BOTTOM;
    assert((4 - i) * h * 250_000_000_000 == 4 * (h * 250_000_000_000) - i * (h * 250_000_000_000))
        by (nonlinear_arith);
    assert((4 - 0) * h * 250_000_000_000 == h * ONE) by (nonlinear_arith);
    assert((4 - 4) * h * 250_000_000_000 == 0) by (nonlinear_arith);
    assert(i * h * ONE == 4 * (i * (h * 250_000_000_000))) by (nonlinear_arith);
    lemma_round_div_exact(0, 4);
    lemma_round_div_exact(e.rise as int, 4);
    lemma_round_div_error(e.rise * i, 4);
    assert(e.rise * i == i * e.rise) by (nonlinear_arith);
}

/// A curve upside down has the same times and the opposite values.
pub proof fn law_inverted_curve_is_upside_down(c: Seq<CurvePoint>, i: int)
    requires
        0 <= i < c.len(),
        c[i].value > i128::MIN,
    ensures
        inverted(c).len() == c.len(),
        inverted(c)[i].time_ms == c[i].time_ms,
        inverted(c)[i].value + c[i].value == 0,
{
}

/// The ledger shows the newest trades first: its last row is the one that is `n` from the end,
/// above it are the newer ones.
pub proof fn law_ledger_shows_the_newest_first(trades: Seq<TradeView>, n: int)
    requires
        1 <= n <= trades.len(),
    ensures
        ledger_text(trades, 1) =~= trade_row_text(1, trades.last()),
        ledger_text(trades, n) == ledger_text(trades, n - 1) + trade_row_text(
            n as nat,
            trades[trades.len() - n],
        ),
{
    assert(ledger_text(trades, 0) =~= Seq::<char>::empty());
    reveal_with_fuel(crate::report::ledger_text, 2);
}

/// The return in the ledger is the net result as a percentage of what the trade was worth, and
/// the minutes are whole ones.
pub proof fn law_ledger_figures(t: TradeView)
    ensures
        t.net_pnl_usdt is None ==> net_of(t) == 0,
        t.net_pnl_usdt is Some ==> net_of(t) == t.net_pnl_usdt->0,
        t.position_value_usdt <= 0 ==> ledger_return(t) == 0,
        t.duration_ms is None ==> ledger_minutes(t) == 0,
        t.duration_ms is Some ==> 60_000 * ledger_minutes(t) <= t.duration_ms->0 < 60_000 * (
        ledger_minutes(t) + 1),
{
}

/// A bar is as high as its win rate, out of the height there is, to one point; without trades
/// there is none.
pub proof fn law_bar_is_as_high_as_its_rate(b: ScoreBucket, height: int)
    requires
        PAD_TOP + PAD_BOTTOM <= height,
        0 <= b.summary.win_rate <= ONE,
    ensures
        b.summary.count == 0 ==> bar_height(b, height) == 0,
        b.summary.count > 0 ==> bar_height(b, height) * ONE <= b.summary.win_rate * (height - PAD_TOP
            - PAD_BOTTOM) < (bar_height(b, height) + 1) * ONE,
        0 <= bar_height(b, height) <= height - PAD_TOP - PAD_BOTTOM,
{
    let h = height - PAD_TOP - PAD_BOTTOM;
    let p = b.summary.win_rate * h;
    assert(0 <= p <= ONE * h) by (nonlinear_arith)
        requires
            p == b.summary.win_rate * h,
            0 <= b.summary.win_rate <= ONE,
            h >= 0,
    ;
}

/// No losses at all are as good as any profit factor; else it is the factor that counts.
pub proof fn law_profit_factor_without_losses_is_good(pf: Option<i128>, bound: int)
    ensures
        pf is None ==> pf_at_least(pf, bound),
        pf is Some ==> (pf_at_least(pf, bound) <==> pf->0 >= bound),
{
}

/// Gains are written with a plus sign; amounts of money have their sign before the currency.
pub proof fn law_signs_of_amounts(v: int, decimals: nat)
    ensures
        v >= 0 ==> signed_text(v, decimals) == "+"@ + fixed_text(v, decimals),
        v < 0 ==> signed_text(v, decimals) == fixed_text(v, decimals) && signed_text(v, decimals).len()
            > 0 && signed_text(v, decimals)[0] == '-',
        v >= 0 ==> usdt_text(v) == "$"@ + fixed_text(v, 2),
        v < 0 ==> usdt_text(v) == "-$"@ + fixed_text(-v, 2),
{
}

} // verus!
