//! What the figures of a backtest come to: theorems about [`crate::metrics`] and the records
//! of [`crate::telemetry`].
use crate::backtest::{Bar, CurvePoint};
use crate::fixed::{
    lemma_round_div_error, lemma_round_div_exact, lemma_round_div_monotone, LIMIT, ONE,
};
use crate::metrics::{
    all_trades, bars_in, belongs, bucket_group, bucket_of, durations_of, entered_from, feature_of,
    growth_pct, highest, mean_of, metrics_of, minutes_of, percent_of, profit_factor_of, profits_of,
    regime_group, regime_row, return_of, summary_for, summary_of, sums_of, win_rate_of, Feature,
    GroupView, Sums,
};
use crate::regime::Regime;
use crate::telemetry::{opened_record, FeatureSnapshot, TradeView};
use vstd::prelude::*;

verus! {

/// A percentage of a trade's worth is that: times the worth it is a hundred times the amount,
/// to fifty steps, and it has the sign of the amount.
pub proof fn law_percent_is_of_the_worth(amount: int, t: TradeView)
    requires
        t.position_value_usdt > 0,
        -LIMIT < percent_of(amount, t) < LIMIT,
        -LIMIT <= 1_000 * amount <= LIMIT,
        t.position_value_usdt >= ONE,
    ensures
        ({
            let v = t.position_value_usdt as int;
            let p = percent_of(amount, t);
            -100 * v <= 2 * (p * v - 100 * amount * ONE) <= 100 * v
        }),
        amount >= 0 ==> percent_of(amount, t) >= 0,
        amount <= 0 ==> percent_of(amount, t) <= 0,
{
    let v = t.position_value_usdt as int;
    let n = amount * ONE;
    lemma_round_div_error(n, v);
    lemma_round_div_exact(0, v);
    if amount >= 0 {
        lemma_round_div_monotone(0, n, v);
        assert(n <= amount * v) by (nonlinear_arith)
            requires
                n == amount * ONE,
                v >= ONE,
                amount >= 0,
        ;
        lemma_round_div_monotone(n, amount * v, v);
        lemma_round_div_exact(amount, v);
    }
    if amount <= 0 {
        lemma_round_div_monotone(n, 0, v);
        assert(n >= amount * v) by (nonlinear_arith)
            requires
                n == amount * ONE,
                v >= ONE,
                amount <= 0,
        ;
        lemma_round_div_monotone(amount * v, n, v);
        lemma_round_div_exact(amount, v);
    }
    let q = crate::fixed::quotient(amount, v);
    assert((100 * q) * v == 100 * (q * v)) by (nonlinear_arith);
}

/// The sums over the first trades depend on them alone.
proof fn lemma_sums_prefix(a: Seq<TradeView>, b: Seq<TradeView>, g: GroupView, n: int)
    requires
        0 <= n <= a.len(),
        n <= b.len(),
        forall|i: int| 0 <= i < n ==> a[i] == #[trigger] b[i],
    ensures
        sums_of(a, g, n) == sums_of(b, g, n),
        profits_of(a, n) == profits_of(b, n),
        durations_of(a, n) == durations_of(b, n),
    decreases n,
{
    if n > 0 {
        lemma_sums_prefix(a, b, g, n - 1);
        assert(a[n - 1] == b[n - 1]);
    }
}

/// One more trade counts once where it belongs to the group, and not at all elsewhere: it
/// wins where it earned something, its net result goes to the profits or the losses, and its
/// return to the returns of the winners or of the losers.
pub proof fn law_each_trade_counts_once(trades: Seq<TradeView>, g: GroupView, t: TradeView)
    requires
        ({
            let s = sums_of(trades, g, trades.len() as int);
            &&& s.count < usize::MAX
            &&& s.wins <= s.count
            &&& s.gross_profit <= LIMIT
            &&& s.gross_loss <= LIMIT
        }),
        ({
            let s = sums_of(trades, g, trades.len() as int);
            let m = 100_000_000_000_000_000_000_000_000_000_000_000_000int;
            &&& -m < s.returns < m
            &&& -m < s.winner_returns < m
            &&& -m < s.loser_returns < m
            &&& -m < s.mfe < m
            &&& -m < s.mae < m
            &&& 0 <= s.minutes < m
            &&& 0 <= s.gross_profit
            &&& 0 <= s.gross_loss
        }),
    ensures
        ({
            let n = trades.len() as int;
            let s = sums_of(trades, g, n);
            let u = sums_of(trades.push(t), g, n + 1);
            let net = t.net_pnl_usdt->0;
            &&& !belongs(t, g) ==> u == s
            &&& belongs(t, g) ==> {
                &&& u.count == s.count + 1
                &&& u.wins == (if net > 0 {
                    s.wins + 1
                } else {
                    s.wins as int
                })
                &&& u.returns == s.returns + return_of(t)
                &&& t.mfe_usdt is Some ==> u.mfe == s.mfe + percent_of(t.mfe_usdt->0 as int, t)
                &&& t.mfe_usdt is None ==> u.mfe == s.mfe
                &&& t.mae_usdt is Some ==> u.mae == s.mae + percent_of(t.mae_usdt->0 as int, t)
                &&& t.mae_usdt is None ==> u.mae == s.mae
                &&& u.minutes == s.minutes + minutes_of(t)
                &&& u.winner_returns == (if net > 0 {
                    s.winner_returns + return_of(t)
                } else {
                    s.winner_returns as int
                })
                &&& u.loser_returns == (if net > 0 {
                    s.loser_returns as int
                } else {
                    s.loser_returns + return_of(t)
                })
                &&& net > 0 && s.gross_profit + net <= LIMIT ==> u.gross_profit == s.gross_profit + net
                    && u.gross_loss == s.gross_loss
                &&& net <= 0 && s.gross_loss - net <= LIMIT ==> u.gross_loss == s.gross_loss - net
                    && u.gross_profit == s.gross_profit
            }
        }),
{
    let n = trades.len() as int;
    let more = trades.push(t);
    assert forall|i: int| 0 <= i < n implies trades[i] == #[trigger] more[i] by {}
    lemma_sums_prefix(trades, more, g, n);
    assert(more[n] == t);
    assert(-LIMIT <= return_of(t) <= LIMIT);
    if t.duration_ms is Some {
        law_minutes_are_told_from_milliseconds(t);
    }
}

/// A mean is the sum over the number, to half a step; of nothing it is nothing.
pub proof fn law_mean_is_the_sum_over_the_number(sum: int, n: int)
    ensures
        n <= 0 ==> mean_of(sum, n) == 0,
        n > 0 ==> -n <= 2 * (mean_of(sum, n) * n - sum) <= n,
{
    if n > 0 {
        lemma_round_div_error(sum, n);
    }
}

/// The win rate is the share of the wins; all wins are one, none is zero.
pub proof fn law_win_rate_is_the_share_of_the_wins(wins: int, count: int)
    requires
        0 <= wins <= count,
    ensures
        count > 0 ==> -count <= 2 * (win_rate_of(wins, count) * count - wins * ONE) <= count,
        count > 0 && wins == count ==> win_rate_of(wins, count) == 1_000_000_000_000,
        wins == 0 ==> win_rate_of(wins, count) == 0,
{
    if count > 0 {
        lemma_round_div_error(wins * ONE, count);
        if wins == count {
            assert(wins * ONE == ONE * count) by (nonlinear_arith)
                requires
                    wins == count,
            ;
            lemma_round_div_exact(ONE as int, count);
        }
    }
    if wins == 0 {
        let d = if count >= 1 {
            count
        } else {
            1
        };
        lemma_round_div_exact(0, d);
    }
}

/// The profit factor is what was won over what was lost, to half a step; without losses there
/// is none.
pub proof fn law_profit_factor_is_profit_over_loss(profit: int, loss: int)
    requires
        profit >= 0,
    ensures
        profit_factor_of(profit, loss) is None <==> loss <= 0,
        loss > 0 && profit_factor_of(profit, loss)->0 < LIMIT ==> -loss <= 2 * (profit_factor_of(
            profit,
            loss,
        )->0 * loss - profit * ONE) <= loss,
{
    if loss > 0 {
        lemma_round_div_error(profit * ONE, loss);
        lemma_round_div_monotone(0, profit * ONE, loss);
        lemma_round_div_exact(0, loss);
    }
}

/// A summary is made of the sums: counts and wins are theirs, the means are theirs, and the
/// expectancy weighs winners and losers with the win rate.
pub proof fn law_summary_is_made_of_the_sums(s: Sums)
    requires
        s.wins <= s.count,
        s.count <= 1_000_000_000,
        -LIMIT * 1_000_000_000 <= s.winner_returns <= LIMIT * 1_000_000_000,
        -LIMIT * 1_000_000_000 <= s.loser_returns <= LIMIT * 1_000_000_000,
        -LIMIT * 1_000_000_000 <= s.returns <= LIMIT * 1_000_000_000,
        -LIMIT * 1_000_000_000 <= s.mfe <= LIMIT * 1_000_000_000,
        -LIMIT * 1_000_000_000 <= s.mae <= LIMIT * 1_000_000_000,
        -LIMIT * 1_000_000_000 <= s.minutes <= LIMIT * 1_000_000_000,
    ensures
        ({
            let m = summary_of(s);
            let n = s.count as int;
            let lost = s.count - s.wins;
            &&& m.count == s.count
            &&& m.wins == s.wins
            &&& n > 0 ==> -n <= 2 * (m.win_rate * n - s.wins * ONE) <= n
            &&& n > 0 ==> -n <= 2 * (m.avg_return_pct * n - s.returns) <= n
            &&& n > 0 ==> -n <= 2 * (m.avg_mfe_pct * n - s.mfe) <= n
            &&& n > 0 ==> -n <= 2 * (m.avg_mae_pct * n - s.mae) <= n
            &&& n > 0 ==> -n <= 2 * (m.avg_minutes * n - s.minutes) <= n
            &&& s.wins > 0 ==> -s.wins <= 2 * (m.avg_winner_pct * s.wins - s.winner_returns) <= s.wins
            &&& lost > 0 ==> -lost <= 2 * (m.avg_loser_pct * lost - s.loser_returns) <= lost
            &&& s.wins == 0 ==> m.avg_winner_pct == 0
            &&& lost == 0 ==> m.avg_loser_pct == 0
            &&& m.profit_factor is None <==> s.gross_loss <= 0
        }),
{
    let n = s.count as int;
    let lost = s.count - s.wins;
    let big = LIMIT * 1_000_000_000;
    lemma_mean_fits(s.returns as int, n, big);
    lemma_mean_fits(s.mfe as int, n, big);
    lemma_mean_fits(s.mae as int, n, big);
    lemma_mean_fits(s.minutes as int, n, big);
    lemma_mean_fits(s.winner_returns as int, s.wins as int, big);
    lemma_mean_fits(s.loser_returns as int, lost, big);
    law_mean_is_the_sum_over_the_number(s.returns as int, n);
    law_mean_is_the_sum_over_the_number(s.mfe as int, n);
    law_mean_is_the_sum_over_the_number(s.mae as int, n);
    law_mean_is_the_sum_over_the_number(s.minutes as int, n);
    law_mean_is_the_sum_over_the_number(s.winner_returns as int, s.wins as int);
    law_mean_is_the_sum_over_the_number(s.loser_returns as int, lost);
    law_win_rate_is_the_share_of_the_wins(s.wins as int, n);
    let d = if n >= 1 {
        n
    } else {
        1
    };
    lemma_round_div_monotone(0, s.wins * ONE, d);
    lemma_round_div_exact(0, d);
    assert(s.wins * ONE <= ONE * d) by (nonlinear_arith)
        requires
            s.wins <= d,
    ;
    lemma_round_div_monotone(s.wins * ONE, ONE * d, d);
    lemma_round_div_exact(ONE as int, d);
}

proof fn lemma_mean_fits(sum: int, n: int, big: int)
    requires
        -big <= sum <= big,
        big >= 0,
    ensures
        -big <= mean_of(sum, n) <= big,
{
    if n > 0 {
        assert(sum <= big * n && sum >= -big * n) by (nonlinear_arith)
            requires
                -big <= sum <= big,
                n >= 1,
                big >= 0,
        ;
        lemma_round_div_monotone(sum, big * n, n);
        lemma_round_div_monotone(-big * n, sum, n);
        lemma_round_div_exact(big, n);
        lemma_round_div_exact(-big, n);
    }
}

/// The expectancy is the win rate times the mean winner, and the rest times the mean loser,
/// to one step.
pub proof fn law_expectancy_weighs_winners_and_losers(s: Sums)
    requires
        s.wins <= s.count,
        s.count <= 1_000_000_000,
        -LIMIT <= summary_of(s).avg_winner_pct <= LIMIT,
        -LIMIT <= summary_of(s).avg_loser_pct <= LIMIT,
        -LIMIT <= mean_of(s.winner_returns as int, s.wins as int) <= LIMIT,
        -LIMIT <= mean_of(s.loser_returns as int, s.count - s.wins) <= LIMIT,
        0 <= win_rate_of(s.wins as int, s.count as int) <= ONE,
    ensures
        ({
            let m = summary_of(s);
            -2 * ONE <= 2 * (m.expectancy_pct * ONE - (m.win_rate * m.avg_winner_pct + (ONE
                - m.win_rate) * m.avg_loser_pct)) <= 2 * ONE
        }),
{
    let r = win_rate_of(s.wins as int, s.count as int);
    let w = mean_of(s.winner_returns as int, s.wins as int);
    let l = mean_of(s.loser_returns as int, s.count - s.wins);
    lemma_round_div_error(r * w, ONE as int);
    lemma_round_div_error((ONE - r) * l, ONE as int);
    assert(-LIMIT * ONE <= r * w <= LIMIT * ONE) by (nonlinear_arith)
        requires
            0 <= r <= ONE,
            -LIMIT <= w <= LIMIT,
    ;
    assert(-LIMIT * ONE <= (ONE - r) * l <= LIMIT * ONE) by (nonlinear_arith)
        requires
            0 <= r <= ONE,
            -LIMIT <= l <= LIMIT,
    ;
    assert(LIMIT * ONE == 1_000_000_000_000_000_000_000_000_000_000_000_000);
}

/// The deepest drawdown is none of the curve's points exceeded, and one of them or zero.
pub proof fn law_deepest_drawdown_is_the_highest_point(curve: Seq<CurvePoint>, n: int)
    requires
        0 <= n <= curve.len(),
    ensures
        highest(curve, n) >= 0,
        forall|i: int| 0 <= i < n ==> (#[trigger] curve[i]).value <= highest(curve, n),
        highest(curve, n) == 0 || exists|i: int|
            0 <= i < n && (#[trigger] curve[i]).value == highest(curve, n),
    decreases n,
{
    if n > 0 {
        law_deepest_drawdown_is_the_highest_point(curve, n - 1);
        if highest(curve, n) == highest(curve, n - 1) {
            if highest(curve, n) != 0 {
                let i = choose|i: int|
                    0 <= i < n - 1 && (#[trigger] curve[i]).value == highest(curve, n - 1);
                assert(curve[i].value == highest(curve, n));
            }
        } else {
            assert(curve[n - 1].value == highest(curve, n));
        }
    }
}

/// The growth is the change from the start as a percentage of it, to fifty steps.
pub proof fn law_growth_is_relative_to_the_start(from: int, to: int)
    requires
        ONE <= from <= LIMIT,
        0 <= to,
        1_000 * to <= LIMIT,
    ensures
        -100 * from <= 2 * (growth_pct(from, to) * from - 100 * (to - from) * ONE) <= 100 * from,
{
    let n = to * ONE;
    lemma_round_div_error(n, from);
    lemma_round_div_monotone(0, n, from);
    lemma_round_div_exact(0, from);
    assert(n <= to * from) by (nonlinear_arith)
        requires
            n == to * ONE,
            from >= ONE,
            to >= 0,
    ;
    lemma_round_div_monotone(n, to * from, from);
    lemma_round_div_exact(to, from);
    let q = crate::fixed::quotient(to, from);
    assert((100 * (q - ONE)) * from == 100 * (q * from) - 100 * ONE * from) by (nonlinear_arith);
    assert(100 * (to - from) * ONE == 100 * n - 100 * ONE * from) by (nonlinear_arith)
        requires
            n == to * ONE,
    ;
}

/// One more trade adds its net result to the profits or to the losses, and its duration to
/// the durations.
pub proof fn law_profits_and_durations_add_up(trades: Seq<TradeView>, t: TradeView)
    requires
        0 <= profits_of(trades, trades.len() as int).0,
        0 <= profits_of(trades, trades.len() as int).1,
        t.net_pnl_usdt is Some ==> profits_of(trades, trades.len() as int).0 + t.net_pnl_usdt->0
            <= LIMIT && profits_of(trades, trades.len() as int).1 - t.net_pnl_usdt->0 <= LIMIT
            && profits_of(trades, trades.len() as int).0 <= LIMIT && profits_of(
            trades,
            trades.len() as int,
        ).1 <= LIMIT,
    ensures
        ({
            let n = trades.len() as int;
            let p = profits_of(trades, n);
            let q = profits_of(trades.push(t), n + 1);
            let d = durations_of(trades, n);
            let e = durations_of(trades.push(t), n + 1);
            &&& t.net_pnl_usdt is None ==> q == p
            &&& t.net_pnl_usdt is Some && t.net_pnl_usdt->0 >= 0 ==> q.0 == p.0 + t.net_pnl_usdt->0
                && q.1 == p.1
            &&& t.net_pnl_usdt is Some && t.net_pnl_usdt->0 <= 0 ==> q.0 == p.0 && q.1 == p.1
                - t.net_pnl_usdt->0
            &&& t.duration_ms is None ==> e == d
            &&& t.duration_ms is Some ==> e.0 == d.0 + t.duration_ms->0 && e.1 == d.1 + 1
        }),
        profits_of(Seq::empty(), 0) == (0int, 0int),
        durations_of(Seq::empty(), 0) == (0int, 0int),
{
    let n = trades.len() as int;
    let more = trades.push(t);
    assert forall|i: int| 0 <= i < n implies trades[i] == #[trigger] more[i] by {}
    lemma_sums_prefix(trades, more, all_trades(), n);
    assert(more[n] == t);
}

/// The metrics of a backtest are those of all its trades: wins and losses make up the count,
/// the mean duration is the whole number of milliseconds, and without trades the profit factor
/// is zero.
pub proof fn law_metrics_are_of_all_trades(
    starting: int,
    final_equity: i128,
    trades: Seq<TradeView>,
    curve: Seq<CurvePoint>,
    total_fees: i128,
    total_slippage: i128,
)
    requires
        ({
            let s = summary_for(trades, all_trades());
            s.wins <= s.count
        }),
        ({
            let d = durations_of(trades, trades.len() as int);
            0 <= d.0 <= d.1 * u64::MAX && d.1 >= 0
        }),
    ensures
        ({
            let m = metrics_of(starting, final_equity, trades, curve, total_fees, total_slippage);
            let s = summary_for(trades, all_trades());
            let d = durations_of(trades, trades.len() as int);
            &&& m.final_equity == final_equity
            &&& m.total_fees_usdt == total_fees
            &&& m.total_slippage_usdt == total_slippage
            &&& m.trade_count == s.count
            &&& m.winning_trades == s.wins
            &&& m.winning_trades + m.losing_trades == m.trade_count
            &&& m.win_rate == s.win_rate
            &&& m.avg_winner_pct == s.avg_winner_pct
            &&& m.avg_loser_pct == s.avg_loser_pct
            &&& trades.len() == 0 ==> m.profit_factor == Some(0i128)
            &&& d.1 > 0 ==> m.avg_trade_duration_ms * d.1 <= d.0 < (m.avg_trade_duration_ms + 1) * d.1
            &&& d.1 == 0 ==> m.avg_trade_duration_ms == 0
        }),
{
    let d = durations_of(trades, trades.len() as int);
    if d.1 > 0 {
        vstd::arithmetic::div_mod::lemma_fundamental_div_mod(d.0, d.1);
        let q = d.0 / d.1;
        assert(0 <= q <= u64::MAX && q * d.1 <= d.0 < (q + 1) * d.1) by (nonlinear_arith)
            requires
                d.0 == d.1 * q + d.0 % d.1,
                0 <= d.0 % d.1 < d.1,
                0 <= d.0 <= d.1 * u64::MAX,
                d.1 > 0,
        ;
    }
}

/// A trade belongs to a group where it was closed, was worth something, and meets every
/// condition of the group.
pub proof fn law_groups_pick_by_their_conditions(t: TradeView, g: GroupView)
    ensures
        belongs(t, g) <==> {
            &&& t.net_pnl_usdt is Some
            &&& t.position_value_usdt > 0
            &&& (g.strategy is None || g.strategy->0 == t.strategy)
            &&& (g.regime is None || g.regime->0 == t.regime)
            &&& (g.exit_reason is None || (t.exit_reason is Some && t.exit_reason->0
                == g.exit_reason->0) || (t.exit_reason is None && g.exit_reason->0 == "unknown"@))
            &&& (g.won is None || g.won->0 == (t.net_pnl_usdt->0 > 0))
            &&& (g.score_bucket is None || g.score_bucket->0 == bucket_of(t.score as int))
            &&& (g.feature is None || g.at_least is None || feature_of(t.features, g.feature->0)
                >= g.at_least->0)
            &&& (g.feature is None || g.below is None || feature_of(t.features, g.feature->0)
                < g.below->0)
        },
        belongs(t, all_trades()) <==> t.net_pnl_usdt is Some && t.position_value_usdt > 0,
        forall|r: Regime| #[trigger]
            belongs(t, regime_group(r)) <==> belongs(t, all_trades()) && t.regime == r,
{
}

/// A score falls into the bucket of its fifth; what is outside of them falls into the last.
pub proof fn law_scores_fall_into_their_fifth(score: int)
    ensures
        0 <= bucket_of(score) <= 4,
        0 <= score < 1_000_000_000_000 ==> 200_000_000_000 * bucket_of(score) <= score
            < 200_000_000_000 * (bucket_of(score) + 1),
        score < 0 ==> bucket_of(score) == 4,
        score >= 1_000_000_000_000 ==> bucket_of(score) == 4,
{
}

/// The features that trades are sorted by are those of their snapshot; the spread is that of
/// the one-hour averages as a percentage of the longer one.
pub proof fn law_features_of_a_trade(f: FeatureSnapshot)
    ensures
        feature_of(f, Feature::Velocity1m) == f.velocity_1m,
        feature_of(f, Feature::Velocity5m) == f.velocity_5m,
        feature_of(f, Feature::VolumeZ) == f.volume_z,
        feature_of(f, Feature::TrendStrength) == f.trend_strength,
        f.ema50_1h >= ONE && f.ema20_1h >= f.ema50_1h ==> feature_of(f, Feature::HtfSpreadPct) >= 0,
        f.ema50_1h >= ONE && f.ema20_1h <= f.ema50_1h ==> feature_of(f, Feature::HtfSpreadPct) <= 0,
{
    if f.ema50_1h >= ONE {
        let d = f.ema50_1h as int;
        lemma_round_div_exact(0, d);
        if f.ema20_1h >= f.ema50_1h {
            lemma_round_div_monotone(0, (f.ema20_1h - f.ema50_1h) * ONE, d);
        } else {
            lemma_round_div_monotone((f.ema20_1h - f.ema50_1h) * ONE, 0, d);
        }
    }
}

/// Minutes are milliseconds over sixty thousand, to half a step.
pub proof fn law_minutes_are_told_from_milliseconds(t: TradeView)
    requires
        t.duration_ms is Some,
    ensures
        minutes_of(t) < LIMIT ==> -60_000 <= 2 * (minutes_of(t) * 60_000 - t.duration_ms->0 * ONE)
            <= 60_000,
        minutes_of(t) >= 0,
{
    let n = t.duration_ms->0 * ONE;
    lemma_round_div_error(n, 60_000);
    lemma_round_div_monotone(0, n, 60_000);
    lemma_round_div_exact(0, 60_000);
}

/// A record opens with the terms of the trade and its worth: the price times the quantity, to
/// half a step.
pub proof fn law_record_opens_with_its_terms(
    symbol: Seq<char>,
    regime: Regime,
    strategy: Seq<char>,
    score: i128,
    entry_time_ms: u64,
    entry_price: i128,
    qty: i128,
    stop_price: i128,
    tp_price: Option<i128>,
    entry_fee_usdt: i128,
    features: FeatureSnapshot,
)
    ensures
        ({
            let t = opened_record(
                symbol,
                regime,
                strategy,
                score,
                entry_time_ms,
                entry_price,
                qty,
                stop_price,
                tp_price,
                entry_fee_usdt,
                features,
            );
            &&& t.symbol == symbol && t.regime == regime && t.strategy == strategy
            &&& t.score == score && t.entry_time_ms == entry_time_ms
            &&& t.entry_price == entry_price && t.qty == qty
            &&& t.stop_price == stop_price && t.tp_price == tp_price
            &&& t.entry_fee_usdt == Some(entry_fee_usdt)
            &&& t.features == features
            &&& t.exit_price is None && t.exit_time_ms is None && t.net_pnl_usdt is None
            &&& -LIMIT < t.position_value_usdt < LIMIT ==> -ONE <= 2 * (t.position_value_usdt * ONE
                - entry_price * qty) <= ONE
        }),
{
    lemma_round_div_error(entry_price * qty, ONE as int);
}

/// Closing a record books the gain of the quantity from the entry to the exit, less both
/// fees, and the time between them.
pub proof fn law_record_closes_with_its_gain(
    t: TradeView,
    exit_time_ms: u64,
    exit_price: i128,
    reason: Seq<char>,
    exit_fee: i128,
    mfe: Option<i128>,
    mae: Option<i128>,
)
    ensures
        ({
            let c = t.closed(exit_time_ms, exit_price, reason, exit_fee, mfe, mae);
            let gross = c.gross_pnl_usdt->0;
            let entry_fee = if t.entry_fee_usdt is Some {
                t.entry_fee_usdt->0 as int
            } else {
                0
            };
            &&& c.exit_time_ms == Some(exit_time_ms) && c.exit_price == Some(exit_price)
            &&& c.exit_reason == Some(reason) && c.exit_fee_usdt == Some(exit_fee)
            &&& c.mfe_usdt == mfe && c.mae_usdt == mae
            &&& -LIMIT < gross < LIMIT ==> -ONE <= 2 * (gross * ONE - (exit_price - t.entry_price)
                * t.qty) <= ONE
            &&& -LIMIT <= gross - entry_fee - exit_fee <= LIMIT ==> c.net_pnl_usdt == Some(
                (gross - entry_fee - exit_fee) as i128,
            )
            &&& exit_time_ms >= t.entry_time_ms ==> c.duration_ms == Some(
                (exit_time_ms - t.entry_time_ms) as u64,
            )
            &&& exit_time_ms < t.entry_time_ms ==> c.duration_ms == Some(0u64)
        }),
{
    lemma_round_div_error((exit_price - t.entry_price) * t.qty, ONE as int);
}

/// One more bar counts once, for its own regime.
pub proof fn law_each_bar_counts_for_its_regime(bars: Seq<Bar>, r: Regime, b: Bar)
    ensures
        bars_in(bars.push(b), r, bars.len() as int + 1) == bars_in(bars, r, bars.len() as int) + (
        if b.reading.regime == r {
            1int
        } else {
            0
        }),
        bars_in(Seq::empty(), r, 0) == 0,
{
    lemma_bars_prefix(bars, bars.push(b), r, bars.len() as int);
}

proof fn lemma_bars_prefix(a: Seq<Bar>, b: Seq<Bar>, r: Regime, n: int)
    requires
        0 <= n <= a.len(),
        n <= b.len(),
        forall|i: int| 0 <= i < n ==> a[i] == #[trigger] b[i],
    ensures
        bars_in(a, r, n) == bars_in(b, r, n),
    decreases n,
{
    if n > 0 {
        lemma_bars_prefix(a, b, r, n - 1);
        assert(a[n - 1] == b[n - 1]);
    }
}

/// The total return is the change of the equity as a percentage of the start, the deepest
/// drawdown is none of the curve's points exceeded, and the profit factor is what was won over
/// what was lost.
pub proof fn law_metrics_in_numbers(
    starting: int,
    final_equity: i128,
    trades: Seq<TradeView>,
    curve: Seq<CurvePoint>,
    total_fees: i128,
    total_slippage: i128,
    i: int,
)
    requires
        ONE <= starting <= LIMIT,
        0 <= final_equity,
        1_000 * final_equity <= LIMIT,
        0 <= i < curve.len(),
        trades.len() > 0,
        profits_of(trades, trades.len() as int).0 >= 0,
    ensures
        ({
            let m = metrics_of(starting, final_equity, trades, curve, total_fees, total_slippage);
            let (won, lost) = profits_of(trades, trades.len() as int);
            &&& -100 * starting <= 2 * (m.total_return_pct * starting - 100 * (final_equity - starting)
                * ONE) <= 100 * starting
            &&& m.max_drawdown_pct >= curve[i].value
            &&& m.max_drawdown_pct >= 0
            &&& m.profit_factor is None <==> lost <= 0
            &&& lost > 0 && m.profit_factor->0 < LIMIT ==> -lost <= 2 * (m.profit_factor->0 * lost
                - won * ONE) <= lost
        }),
{
    law_growth_is_relative_to_the_start(starting, final_equity as int);
    law_deepest_drawdown_is_the_highest_point(curve, curve.len() as int);
    let h = highest(curve, curve.len() as int);
    assert(curve[i].value <= h);
    if h != 0 {
        let k = choose|k: int| 0 <= k < curve.len() && (#[trigger] curve[k]).value == h;
        assert(curve[k].value == h);
    }
    let (won, lost) = profits_of(trades, trades.len() as int);
    law_profit_factor_is_profit_over_loss(won, lost);
}

/// A trade is in the bucket of its score and in no other, and a regime has its line exactly
/// where it has trades.
pub proof fn law_buckets_and_lines(t: TradeView, i: int, trades: Seq<TradeView>, r: Regime)
    requires
        0 <= i < 5,
    ensures
        belongs(t, bucket_group(i)) <==> belongs(t, all_trades()) && bucket_of(t.score as int) == i,
        regime_row(trades, r).len() == (if summary_for(trades, regime_group(r)).count > 0 {
            1nat
        } else {
            0
        }),
        regime_row(trades, r).len() == 1 ==> regime_row(trades, r)[0].regime == r && regime_row(
            trades,
            r,
        )[0].summary == summary_for(trades, regime_group(r)),
{
}

/// Picking the trades from a time on keeps exactly those that entered then or later, and their
/// order: one more trade is added at the end or not at all.
pub proof fn law_picked_trades_entered_in_time(trades: Seq<TradeView>, from_ms: u64, t: TradeView)
    ensures
        ({
            let n = trades.len() as int;
            let before = entered_from(trades, from_ms, n);
            let after = entered_from(trades.push(t), from_ms, n + 1);
            &&& t.entry_time_ms >= from_ms ==> after == before.push(t)
            &&& t.entry_time_ms < from_ms ==> after == before
        }),
        entered_from(Seq::empty(), from_ms, 0).len() == 0,
{
    lemma_entered_prefix(trades, trades.push(t), from_ms, trades.len() as int);
}

proof fn lemma_entered_prefix(a: Seq<TradeView>, b: Seq<TradeView>, from_ms: u64, n: int)
    requires
        0 <= n <= a.len(),
        n <= b.len(),
        forall|i: int| 0 <= i < n ==> a[i] == #[trigger] b[i],
    ensures
        entered_from(a, from_ms, n) == entered_from(b, from_ms, n),
    decreases n,
{
    if n > 0 {
        lemma_entered_prefix(a, b, from_ms, n - 1);
        assert(a[n - 1] == b[n - 1]);
    }
}

} // verus!
