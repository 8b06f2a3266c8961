//! What a list of trades amounts to.
use crate::backtest::{
    curve_ok, law_one_entry_per_bar, replayed, simulate, trade_views, Bar, BacktestConfig,
    CurvePoint, Sim,
};
use crate::features::Candle;
use crate::fixed::{
    bounded, div_bounded, div_round, lemma_round_div_exact, lemma_round_div_monotone, max_fixed,
    max_of, mul_fixed, over, product, round_div, saturate, saturated, LIMIT, ONE,
};
use crate::regime::{regime_text, Regime};
use crate::signals::SignalSettings;
use crate::telemetry::{FeatureSnapshot, TradeRecord, TradeView};
use crate::text::{ascending, insert_text, same_text, text_less, texts};
use vstd::prelude::*;

verus! {

/// The longest list of trades that is summed up.
pub const TRADES_MAX: usize = 1_000_000_000;

/// A feature that trades are grouped by.
#[derive(Clone, Copy, Debug, PartialEq, Eq, Structural)]
pub enum Feature {
    Velocity1m,
    Velocity5m,
    VolumeZ,
    /// How far the 20-bar average is over the 50-bar one on one hour, in percent.
    HtfSpreadPct,
    TrendStrength,
}

/// The value of a feature.
pub open spec fn feature_of(f: FeatureSnapshot, which: Feature) -> int {
    match which {
        Feature::Velocity1m => f.velocity_1m as int,
        Feature::Velocity5m => f.velocity_5m as int,
        Feature::VolumeZ => f.volume_z as int,
        Feature::HtfSpreadPct => if f.ema50_1h > 1000 {
            saturated(100 * over(f.ema20_1h - f.ema50_1h, f.ema50_1h as int))
        } else if f.ema50_1h < -1000 {
            saturated(100 * over(f.ema50_1h - f.ema20_1h, -f.ema50_1h))
        } else {
            0
        },
        Feature::TrendStrength => f.trend_strength as int,
    }
}

/// The value of a feature. The averages have to be within the range of the
/// arithmetic.
pub fn feature_value(f: &FeatureSnapshot, which: Feature) -> (v: i128)
    requires
        bounded(f.ema20_1h as int),
        bounded(f.ema50_1h as int),
    ensures
        v == feature_of(*f, which),
{
    match which {
        Feature::Velocity1m => f.velocity_1m,
        Feature::Velocity5m => f.velocity_5m,
        Feature::VolumeZ => f.volume_z,
        Feature::HtfSpreadPct => if f.ema50_1h > 1000 {
            saturate(100 * div_bounded(f.ema20_1h - f.ema50_1h, f.ema50_1h))
        } else if f.ema50_1h < -1000 {
            saturate(100 * div_bounded(f.ema50_1h - f.ema20_1h, -f.ema50_1h))
        } else {
            0
        },
        Feature::TrendStrength => f.trend_strength,
    }
}

/// A group of trades: those that agree with every part that is set.
#[derive(Clone, Debug)]
pub struct Group {
    pub strategy: Option<String>,
    pub exit_reason: Option<String>,
    pub regime: Option<Regime>,
    pub won: Option<bool>,
    pub score_bucket: Option<usize>,
    /// A feature that is at least the first bound and below the second, where they
    /// are set.
    pub feature: Option<Feature>,
    pub at_least: Option<i128>,
    pub below: Option<i128>,
}

/// The content of a [`Group`].
pub struct GroupView {
    pub strategy: Option<Seq<char>>,
    pub exit_reason: Option<Seq<char>>,
    pub regime: Option<Regime>,
    pub won: Option<bool>,
    pub score_bucket: Option<usize>,
    pub feature: Option<Feature>,
    pub at_least: Option<i128>,
    pub below: Option<i128>,
}

impl View for Group {
    type V = GroupView;

    open spec fn view(&self) -> GroupView {
        GroupView {
            strategy: match self.strategy {
                Some(s) => Some(s@),
                None => None,
            },
            exit_reason: match self.exit_reason {
                Some(s) => Some(s@),
                None => None,
            },
            regime: self.regime,
            won: self.won,
            score_bucket: self.score_bucket,
            feature: self.feature,
            at_least: self.at_least,
            below: self.below,
        }
    }
}

/// The group of all trades.
pub open spec fn all_trades() -> GroupView {
    GroupView {
        strategy: None,
        exit_reason: None,
        regime: None,
        won: None,
        score_bucket: None,
        feature: None,
        at_least: None,
        below: None,
    }
}

impl Group {
    /// The group of all trades.
    pub fn all() -> (g: Group)
        ensures
            g@ == all_trades(),
    {
        Group {
            strategy: None,
            exit_reason: None,
            regime: None,
            won: None,
            score_bucket: None,
            feature: None,
            at_least: None,
            below: None,
        }
    }
}

/// The bucket of a score: five of them, by steps of 0.2. A score outside them goes
/// to the last one.
pub open spec fn bucket_of(score: int) -> int {
    if 0 <= score < 200_000_000_000 {
        0
    } else if 200_000_000_000 <= score < 400_000_000_000 {
        1
    } else if 400_000_000_000 <= score < 600_000_000_000 {
        2
    } else if 600_000_000_000 <= score < 800_000_000_000 {
        3
    } else {
        4
    }
}

/// The bucket of a score.
pub fn score_bucket(score: i128) -> (b: usize)
    ensures
        b == bucket_of(score as int),
        b < 5,
{
    if score < 0 {
        4
    } else if score < 200_000_000_000 {
        0
    } else if score < 400_000_000_000 {
        1
    } else if score < 600_000_000_000 {
        2
    } else if score < 800_000_000_000 {
        3
    } else {
        4
    }
}

/// Why a trade was left, in words.
pub open spec fn reason_of(t: TradeView) -> Seq<char> {
    match t.exit_reason {
        Some(r) => r,
        None => "unknown"@,
    }
}

/// Whether a trade counts: it was closed, and it was worth something.
pub open spec fn counts(t: TradeView) -> bool {
    t.net_pnl_usdt is Some && t.position_value_usdt > 0
}

/// Whether a trade that counts belongs to a group.
pub open spec fn belongs(t: TradeView, g: GroupView) -> bool {
    &&& counts(t)
    &&& g.strategy is Some ==> t.strategy == g.strategy->0
    &&& g.exit_reason is Some ==> reason_of(t) == g.exit_reason->0
    &&& g.regime is Some ==> t.regime == g.regime->0
    &&& g.won is Some ==> (t.net_pnl_usdt->0 > 0) == g.won->0
    &&& g.score_bucket is Some ==> bucket_of(t.score as int) == g.score_bucket->0
    &&& g.feature is Some ==> {
        let v = feature_of(t.features, g.feature->0);
        (g.at_least is Some ==> v >= g.at_least->0) && (g.below is Some ==> v < g.below->0)
    }
}

/// Whether the amounts of all records are within the range of the arithmetic.
pub open spec fn records_ok(t: Seq<TradeRecord>) -> bool {
    t.len() <= TRADES_MAX && forall|i: int| 0 <= i < t.len() ==> (#[trigger] t[i])@.ok()
}

fn belongs_to(t: &TradeRecord, g: &Group) -> (r: bool)
    requires
        t@.ok(),
    ensures
        r == belongs(t@, g@),
{
    let net: i128 = match t.net_pnl_usdt {
        Some(n) => n,
        None => return false,
    };
    if t.position_value_usdt <= 0 {
        return false;
    }
    if let Some(s) = &g.strategy {
        if !same_text(t.strategy.as_str(), s.as_str()) {
            return false;
        }
    }
    if let Some(s) = &g.exit_reason {
        let same: bool = match &t.exit_reason {
            Some(r) => same_text(r.as_str(), s.as_str()),
            None => same_text("unknown", s.as_str()),
        };
        if !same {
            return false;
        }
    }
    if let Some(r) = g.regime {
        if t.regime != r {
            return false;
        }
    }
    if let Some(w) = g.won {
        if (net > 0) != w {
            return false;
        }
    }
    if let Some(b) = g.score_bucket {
        if score_bucket(t.score) != b {
            return false;
        }
    }
    if let Some(which) = g.feature {
        let v: i128 = feature_value(&t.features, which);
        if let Some(lo) = g.at_least {
            if v < lo {
                return false;
            }
        }
        if let Some(hi) = g.below {
            if v >= hi {
                return false;
            }
        }
    }
    true
}

/// An amount as a percentage of the trade's worth.
pub open spec fn percent_of(amount: int, t: TradeView) -> int {
    saturated(100 * over(amount, t.position_value_usdt as int))
}

/// The return of a trade that counts, in percent.
pub open spec fn return_of(t: TradeView) -> int {
    percent_of(t.net_pnl_usdt->0 as int, t)
}

/// An optional amount as a percentage, zero where there is none.
pub open spec fn excursion_of(amount: Option<i128>, t: TradeView) -> int {
    match amount {
        Some(a) => percent_of(a as int, t),
        None => 0,
    }
}

/// How long a trade took, in minutes.
pub open spec fn minutes_of(t: TradeView) -> int {
    match t.duration_ms {
        Some(d) => saturated(round_div(d * ONE, 60_000)),
        None => 0,
    }
}

fn percent(amount: i128, t: &TradeRecord) -> (p: i128)
    requires
        bounded(amount as int),
        0 < t.position_value_usdt <= LIMIT,
    ensures
        p == percent_of(amount as int, t@),
        bounded(p as int),
        amount >= 0 ==> p >= 0,
        amount <= 0 ==> p <= 0,
{
    proof {
        let v = t.position_value_usdt as int;
        crate::fixed::lemma_round_div_exact(0, v);
        if amount >= 0 {
            crate::fixed::lemma_round_div_monotone(0, amount * ONE, v);
        }
        if amount <= 0 {
            crate::fixed::lemma_round_div_monotone(amount * ONE, 0, v);
        }
    }
    saturate(100 * div_bounded(amount, t.position_value_usdt))
}

/// The sums over a group of trades.
#[derive(Clone, Copy, Debug, PartialEq, Eq, Structural)]
pub struct Sums {
    pub count: usize,
    pub wins: usize,
    pub returns: i128,
    pub winner_returns: i128,
    pub loser_returns: i128,
    pub gross_profit: i128,
    pub gross_loss: i128,
    pub mfe: i128,
    pub mae: i128,
    pub minutes: i128,
}

/// The sums over the trades of a group among the first `n`. A trade wins where it
/// earned something.
pub open spec fn sums_of(trades: Seq<TradeView>, g: GroupView, n: int) -> Sums
    decreases n,
{
    if n <= 0 {
        Sums {
            count: 0,
            wins: 0,
            returns: 0,
            winner_returns: 0,
            loser_returns: 0,
            gross_profit: 0,
            gross_loss: 0,
            mfe: 0,
            mae: 0,
            minutes: 0,
        }
    } else {
        let s = sums_of(trades, g, n - 1);
        let t = trades[n - 1];
        if !belongs(t, g) {
            s
        } else {
            let r = return_of(t);
            let net = t.net_pnl_usdt->0;
            Sums {
                count: (s.count + 1) as usize,
                wins: (s.wins + (if net > 0 {
                    1int
                } else {
                    0
                })) as usize,
                returns: (s.returns + r) as i128,
                winner_returns: (s.winner_returns + (if net > 0 {
                    r
                } else {
                    0
                })) as i128,
                loser_returns: (s.loser_returns + (if net > 0 {
                    0
                } else {
                    r
                })) as i128,
                gross_profit: saturated(
                    s.gross_profit + (if net > 0 {
                        net as int
                    } else {
                        0
                    }),
                ) as i128,
                gross_loss: saturated(
                    s.gross_loss + (if net > 0 {
                        0
                    } else {
                        -(net as int)
                    }),
                ) as i128,
                mfe: (s.mfe + excursion_of(t.mfe_usdt, t)) as i128,
                mae: (s.mae + excursion_of(t.mae_usdt, t)) as i128,
                minutes: (s.minutes + minutes_of(t)) as i128,
            }
        }
    }
}

/// Whether sums are those of at most `n` trades.
pub open spec fn sums_within(s: Sums, n: int) -> bool {
    &&& s.wins <= s.count <= n
    &&& -n * LIMIT <= s.returns <= n * LIMIT
    &&& 0 <= s.winner_returns <= s.wins * LIMIT
    &&& -(s.count - s.wins) * LIMIT <= s.loser_returns <= 0
    &&& 0 <= s.gross_profit <= LIMIT
    &&& 0 <= s.gross_loss <= LIMIT
    &&& -n * LIMIT <= s.mfe <= n * LIMIT
    &&& -n * LIMIT <= s.mae <= n * LIMIT
    &&& -n * LIMIT <= s.minutes <= n * LIMIT
    &&& -s.count * LIMIT <= s.returns <= s.count * LIMIT
    &&& -s.count * LIMIT <= s.mfe <= s.count * LIMIT
    &&& -s.count * LIMIT <= s.mae <= s.count * LIMIT
    &&& -s.count * LIMIT <= s.minutes <= s.count * LIMIT
}

/// Sums up a group of trades.
pub fn sum_group(trades: &Vec<TradeRecord>, g: &Group) -> (s: Sums)
    requires
        records_ok(trades@),
    ensures
        s == sums_of(trade_views(trades@), g@, trades@.len() as int),
        sums_within(s, trades@.len() as int),
{
    let ghost views = trade_views(trades@);
    let mut s: Sums = Sums {
        count: 0,
        wins: 0,
        returns: 0,
        winner_returns: 0,
        loser_returns: 0,
        gross_profit: 0,
        gross_loss: 0,
        mfe: 0,
        mae: 0,
        minutes: 0,
    };
    let mut i: usize = 0;
    while i < trades.len()
        invariant
            i <= trades@.len() <= TRADES_MAX,
            records_ok(trades@),
            views == trade_views(trades@),
            s == sums_of(views, g@, i as int),
            sums_within(s, i as int),
        decreases trades@.len() - i,
    {
        let t: &TradeRecord = &trades[i];
        assert(trades@[i as int]@.ok());
        assert(views[i as int] == t@);
        if belongs_to(t, g) {
            let net: i128 = match t.net_pnl_usdt {
                Some(n) => n,
                None => 0,
            };
            let r: i128 = percent(net, t);
            s.count = s.count + 1;
            s.returns = s.returns + r;
            if net > 0 {
                s.wins = s.wins + 1;
                s.winner_returns = s.winner_returns + r;
            } else {
                s.loser_returns = s.loser_returns + r;
            }
            if net > 0 {
                s.gross_profit = saturate(s.gross_profit + net);
            } else {
                s.gross_loss = saturate(s.gross_loss + (-net));
            }
            if let Some(a) = t.mfe_usdt {
                s.mfe = s.mfe + percent(a, t);
            }
            if let Some(a) = t.mae_usdt {
                s.mae = s.mae + percent(a, t);
            }
            if let Some(d) = t.duration_ms {
                s.minutes = s.minutes + saturate(div_round(d as i128 * ONE, 60_000));
            }
        }
        i += 1;
    }
    s
}

/// The mean of `n` numbers with the given sum; zero where there are none.
pub open spec fn mean_of(sum: int, n: int) -> int {
    if n <= 0 {
        0
    } else {
        round_div(sum, n)
    }
}

fn mean(sum: i128, n: usize) -> (m: i128)
    requires
        n <= TRADES_MAX,
        -n * LIMIT <= sum <= n * LIMIT,
    ensures
        m == mean_of(sum as int, n as int),
        bounded(m as int),
{
    if n == 0 {
        return 0;
    }
    let d: i128 = n as i128;
    proof {
        lemma_round_div_monotone(sum as int, LIMIT * d, d as int);
        lemma_round_div_monotone(-LIMIT * d, sum as int, d as int);
        lemma_round_div_exact(LIMIT as int, d as int);
        lemma_round_div_exact(-(LIMIT as int), d as int);
    }
    div_round(sum, d)
}

/// What a group of trades amounts to. A profit factor of `None` is infinite: nothing
/// was lost.
#[derive(Clone, Copy, Debug, PartialEq, Eq, Structural)]
pub struct Summary {
    pub count: usize,
    pub wins: usize,
    pub win_rate: i128,
    pub avg_return_pct: i128,
    pub avg_winner_pct: i128,
    pub avg_loser_pct: i128,
    pub expectancy_pct: i128,
    pub profit_factor: Option<i128>,
    pub avg_mfe_pct: i128,
    pub avg_mae_pct: i128,
    pub avg_minutes: i128,
}

/// The share of the wins.
pub open spec fn win_rate_of(wins: int, count: int) -> int {
    round_div(wins * ONE, max_of(count, 1))
}

/// The profits over the losses; none where nothing was lost.
pub open spec fn profit_factor_of(profit: int, loss: int) -> Option<i128> {
    if loss > 0 {
        Some(over(profit, loss) as i128)
    } else {
        None
    }
}

/// The summary of sums.
pub open spec fn summary_of(s: Sums) -> Summary {
    let n = s.count as int;
    let rate = win_rate_of(s.wins as int, n);
    let winner = mean_of(s.winner_returns as int, s.wins as int);
    let loser = mean_of(s.loser_returns as int, s.count - s.wins);
    Summary {
        count: s.count,
        wins: s.wins,
        win_rate: rate as i128,
        avg_return_pct: mean_of(s.returns as int, n) as i128,
        avg_winner_pct: winner as i128,
        avg_loser_pct: loser as i128,
        expectancy_pct: (product(rate, winner) + product(ONE - rate, loser)) as i128,
        profit_factor: profit_factor_of(s.gross_profit as int, s.gross_loss as int),
        avg_mfe_pct: mean_of(s.mfe as int, n) as i128,
        avg_mae_pct: mean_of(s.mae as int, n) as i128,
        avg_minutes: mean_of(s.minutes as int, n) as i128,
    }
}

/// The summary of a group of trades.
pub open spec fn summary_for(trades: Seq<TradeView>, g: GroupView) -> Summary {
    summary_of(sums_of(trades, g, trades.len() as int))
}

/// The share of the wins is a share.
proof fn lemma_win_rate(wins: int, count: int)
    requires
        0 <= wins <= count,
    ensures
        0 <= win_rate_of(wins, count) <= ONE,
{
    let d = max_of(count, 1);
    lemma_round_div_monotone(0, wins * ONE, d);
    lemma_round_div_exact(0, d);
    assert(wins * ONE <= ONE * d);
    lemma_round_div_monotone(wins * ONE, ONE * d, d);
    lemma_round_div_exact(ONE as int, d);
}

/// Summarises a group of trades.
pub fn summarize(trades: &Vec<TradeRecord>, g: &Group) -> (r: Summary)
    requires
        records_ok(trades@),
    ensures
        r == summary_for(trade_views(trades@), g@),
        r.wins <= r.count <= trades@.len(),
        0 <= r.win_rate <= ONE,
{
    let s: Sums = sum_group(trades, g);
    proof {
        lemma_win_rate(s.wins as int, s.count as int);
    }
    let d: i128 = if s.count >= 1 {
        s.count as i128
    } else {
        1
    };
    let rate: i128 = div_round(s.wins as i128 * ONE, d);
    let winner: i128 = mean(s.winner_returns, s.wins);
    let loser: i128 = mean(s.loser_returns, s.count - s.wins);
    Summary {
        count: s.count,
        wins: s.wins,
        win_rate: rate,
        avg_return_pct: mean(s.returns, s.count),
        avg_winner_pct: winner,
        avg_loser_pct: loser,
        expectancy_pct: mul_fixed(rate, winner) + mul_fixed(ONE - rate, loser),
        profit_factor: if s.gross_loss > 0 {
            Some(div_bounded(s.gross_profit, s.gross_loss))
        } else {
            None
        },
        avg_mfe_pct: mean(s.mfe, s.count),
        avg_mae_pct: mean(s.mae, s.count),
        avg_minutes: mean(s.minutes, s.count),
    }
}

/// What a whole backtest amounts to.
#[derive(Clone, Copy, Debug, PartialEq, Eq, Structural)]
pub struct BacktestMetrics {
    pub final_equity: i128,
    pub total_return_pct: i128,
    pub max_drawdown_pct: i128,
    /// Profits over losses; `None` where nothing was lost.
    pub profit_factor: Option<i128>,
    pub win_rate: i128,
    pub trade_count: usize,
    pub winning_trades: usize,
    pub losing_trades: usize,
    pub avg_winner_pct: i128,
    pub avg_loser_pct: i128,
    pub avg_trade_duration_ms: u64,
    pub total_fees_usdt: i128,
    pub total_slippage_usdt: i128,
}

/// The largest of the first `n` values of a curve, and at least zero.
pub open spec fn highest(curve: Seq<CurvePoint>, n: int) -> int
    decreases n,
{
    if n <= 0 {
        0
    } else {
        max_of(curve[n - 1].value as int, highest(curve, n - 1))
    }
}

/// The profits and the losses of the closed trades among the first `n`.
pub open spec fn profits_of(trades: Seq<TradeView>, n: int) -> (int, int)
    decreases n,
{
    if n <= 0 {
        (0, 0)
    } else {
        let p = profits_of(trades, n - 1);
        match trades[n - 1].net_pnl_usdt {
            Some(net) => (
                saturated(p.0 + max_of(net as int, 0)),
                saturated(p.1 + max_of(-(net as int), 0)),
            ),
            None => p,
        }
    }
}

/// The total duration and the number of the closed trades among the first `n`.
pub open spec fn durations_of(trades: Seq<TradeView>, n: int) -> (int, int)
    decreases n,
{
    if n <= 0 {
        (0, 0)
    } else {
        let p = durations_of(trades, n - 1);
        match trades[n - 1].duration_ms {
            Some(d) => (p.0 + d, p.1 + 1),
            None => p,
        }
    }
}

/// How much an amount has grown, in percent.
pub open spec fn growth_pct(from: int, to: int) -> int {
    saturated(100 * (over(to, max_of(from, 1)) - ONE))
}

/// The metrics of a backtest.
pub open spec fn metrics_of(
    starting: int,
    final_equity: i128,
    trades: Seq<TradeView>,
    curve: Seq<CurvePoint>,
    total_fees: i128,
    total_slippage: i128,
) -> BacktestMetrics {
    let n = trades.len() as int;
    let s = summary_for(trades, all_trades());
    let p = profits_of(trades, n);
    let d = durations_of(trades, n);
    BacktestMetrics {
        final_equity,
        total_return_pct: growth_pct(starting, final_equity as int) as i128,
        max_drawdown_pct: highest(curve, curve.len() as int) as i128,
        profit_factor: if n == 0 {
            Some(0i128)
        } else {
            profit_factor_of(p.0, p.1)
        },
        win_rate: s.win_rate,
        trade_count: s.count,
        winning_trades: s.wins,
        losing_trades: (s.count - s.wins) as usize,
        avg_winner_pct: s.avg_winner_pct,
        avg_loser_pct: s.avg_loser_pct,
        avg_trade_duration_ms: if d.1 == 0 {
            0
        } else {
            (d.0 / d.1) as u64
        },
        total_fees_usdt: total_fees,
        total_slippage_usdt: total_slippage,
    }
}

fn highest_point(curve: &Vec<CurvePoint>) -> (m: i128)
    ensures
        m == highest(curve@, curve@.len() as int),
{
    let mut m: i128 = 0;
    let mut i: usize = 0;
    while i < curve.len()
        invariant
            i <= curve@.len(),
            m == highest(curve@, i as int),
        decreases curve@.len() - i,
    {
        m = max_fixed(curve[i].value, m);
        i += 1;
    }
    m
}

fn profit_totals(trades: &Vec<TradeRecord>) -> (p: (i128, i128))
    requires
        records_ok(trades@),
    ensures
        profits_of(trade_views(trades@), trades@.len() as int) == (p.0 as int, p.1 as int),
        0 <= p.0 <= LIMIT,
        0 <= p.1 <= LIMIT,
{
    let ghost views = trade_views(trades@);
    let mut profit: i128 = 0;
    let mut loss: i128 = 0;
    let mut i: usize = 0;
    while i < trades.len()
        invariant
            i <= trades@.len(),
            records_ok(trades@),
            views == trade_views(trades@),
            profits_of(views, i as int) == (profit as int, loss as int),
            0 <= profit <= LIMIT,
            0 <= loss <= LIMIT,
        decreases trades@.len() - i,
    {
        assert(trades@[i as int]@.ok());
        assert(views[i as int] == trades@[i as int]@);
        if let Some(net) = trades[i].net_pnl_usdt {
            profit = saturate(profit + max_fixed(net, 0));
            loss = saturate(loss + max_fixed(-net, 0));
        }
        i += 1;
    }
    (profit, loss)
}

fn mean_duration(trades: &Vec<TradeRecord>) -> (d: u64)
    requires
        trades@.len() <= TRADES_MAX,
    ensures
        ({
            let t = durations_of(trade_views(trades@), trades@.len() as int);
            d as int == (if t.1 == 0 {
                0
            } else {
                t.0 / t.1
            })
        }),
{
    let ghost views = trade_views(trades@);
    let mut total: u128 = 0;
    let mut n: u128 = 0;
    let mut i: usize = 0;
    while i < trades.len()
        invariant
            i <= trades@.len() <= TRADES_MAX,
            views == trade_views(trades@),
            durations_of(views, i as int) == (total as int, n as int),
            n <= i,
            total <= n * 0xffff_ffff_ffff_ffff,
        decreases trades@.len() - i,
    {
        assert(views[i as int] == trades@[i as int]@);
        if let Some(d) = trades[i].duration_ms {
            total = total + d as u128;
            n = n + 1;
        }
        i += 1;
    }
    if n == 0 {
        return 0;
    }
    proof {
        assert(total / n <= 0xffff_ffff_ffff_ffff) by (nonlinear_arith)
            requires
                total <= n * 0xffff_ffff_ffff_ffff,
                n > 0,
                total >= 0,
        ;
    }
    (total / n) as u64
}

/// Computes the metrics of a backtest.
pub fn compute_metrics(
    starting: i128,
    final_equity: i128,
    trades: &Vec<TradeRecord>,
    drawdown_curve: &Vec<CurvePoint>,
    total_fees: i128,
    total_slippage: i128,
) -> (m: BacktestMetrics)
    requires
        bounded(starting as int),
        bounded(final_equity as int),
        records_ok(trades@),
    ensures
        m == metrics_of(
            starting as int,
            final_equity,
            trade_views(trades@),
            drawdown_curve@,
            total_fees,
            total_slippage,
        ),
        0 <= m.win_rate <= ONE,
{
    let all: Group = Group::all();
    let s: Summary = summarize(trades, &all);
    let p: (i128, i128) = profit_totals(trades);
    let grown: i128 = saturate(
        100 * (div_bounded(final_equity, max_fixed(starting, 1)) - ONE),
    );
    BacktestMetrics {
        final_equity,
        total_return_pct: grown,
        max_drawdown_pct: highest_point(drawdown_curve),
        profit_factor: if trades.len() == 0 {
            Some(0)
        } else if p.1 > 0 {
            Some(div_bounded(p.0, p.1))
        } else {
            None
        },
        win_rate: s.win_rate,
        trade_count: s.count,
        winning_trades: s.wins,
        losing_trades: s.count - s.wins,
        avg_winner_pct: s.avg_winner_pct,
        avg_loser_pct: s.avg_loser_pct,
        avg_trade_duration_ms: mean_duration(trades),
        total_fees_usdt: total_fees,
        total_slippage_usdt: total_slippage,
    }
}

/// The trades of one bucket of scores.
#[derive(Clone, Copy, Debug)]
pub struct ScoreBucket {
    pub label: &'static str,
    pub range_low: i128,
    pub range_high: i128,
    pub summary: Summary,
}

/// The name of a bucket.
pub open spec fn bucket_text(i: int) -> Seq<char> {
    if i == 0 {
        "0.0–0.2"@
    } else if i == 1 {
        "0.2–0.4"@
    } else if i == 2 {
        "0.4–0.6"@
    } else if i == 3 {
        "0.6–0.8"@
    } else {
        "0.8–1.0"@
    }
}

fn bucket_label(i: usize) -> (s: &'static str)
    ensures
        s@ == bucket_text(i as int),
{
    if i == 0 {
        "0.0–0.2"
    } else if i == 1 {
        "0.2–0.4"
    } else if i == 2 {
        "0.4–0.6"
    } else if i == 3 {
        "0.6–0.8"
    } else {
        "0.8–1.0"
    }
}

/// A summary without trades has a profit factor of zero.
pub open spec fn bucket_summary(s: Summary) -> Summary {
    if s.count == 0 {
        Summary { profit_factor: Some(0i128), ..s }
    } else {
        s
    }
}

/// The group of the trades of one bucket of scores.
pub open spec fn bucket_group(i: int) -> GroupView {
    GroupView { score_bucket: Some(i as usize), ..all_trades() }
}

/// The five buckets of the scores of trades.
pub open spec fn is_score_buckets(v: Seq<ScoreBucket>, trades: Seq<TradeView>) -> bool {
    &&& v.len() == 5
    &&& forall|i: int|
        0 <= i < 5 ==> {
            let b = #[trigger] v[i];
            &&& b.label@ == bucket_text(i)
            &&& b.range_low == i * 200_000_000_000
            &&& b.range_high == (i + 1) * 200_000_000_000
            &&& b.summary == bucket_summary(
                summary_for(trades, bucket_group(i)),
            )
        }
}

/// The share of wins of every bucket is a share.
pub open spec fn buckets_ok(rows: Seq<ScoreBucket>) -> bool {
    forall|i: int| 0 <= i < rows.len() ==> 0 <= (#[trigger] rows[i]).summary.win_rate <= ONE
}

/// The share of wins of every regime is a share.
pub open spec fn regimes_ok(rows: Seq<RegimeStats>) -> bool {
    forall|i: int| 0 <= i < rows.len() ==> 0 <= (#[trigger] rows[i]).summary.win_rate <= ONE
}

/// Splits the trades by their scores into five buckets.
pub fn compute_score_buckets(trades: &Vec<TradeRecord>) -> (v: Vec<ScoreBucket>)
    requires
        records_ok(trades@),
    ensures
        is_score_buckets(v@, trade_views(trades@)),
        buckets_ok(v@),
{
    let mut v: Vec<ScoreBucket> = Vec::new();
    let mut i: usize = 0;
    while i < 5
        invariant
            i <= 5,
            v@.len() == i,
            records_ok(trades@),
            buckets_ok(v@),
            forall|k: int|
                0 <= k < i ==> {
                    let b = #[trigger] v@[k];
                    &&& b.label@ == bucket_text(k)
                    &&& b.range_low == k * 200_000_000_000
                    &&& b.range_high == (k + 1) * 200_000_000_000
                    &&& b.summary == bucket_summary(
                        summary_for(trade_views(trades@), bucket_group(k)),
                    )
                },
        decreases 5 - i,
    {
        let mut g: Group = Group::all();
        g.score_bucket = Some(i);
        let mut s: Summary = summarize(trades, &g);
        if s.count == 0 {
            s.profit_factor = Some(0);
        }
        let low: i128 = i as i128 * 200_000_000_000;
        v.push(
            ScoreBucket {
                label: bucket_label(i),
                range_low: low,
                range_high: low + 200_000_000_000,
                summary: s,
            },
        );
        i += 1;
    }
    v
}

/// The trades of one regime.
#[derive(Clone, Copy, Debug, PartialEq, Eq, Structural)]
pub struct RegimeStats {
    pub regime: Regime,
    pub summary: Summary,
}

/// The group of the trades of one regime.
pub open spec fn regime_group(r: Regime) -> GroupView {
    GroupView { regime: Some(r), ..all_trades() }
}

/// The statistics of a regime, where it has trades.
pub open spec fn regime_row(trades: Seq<TradeView>, r: Regime) -> Seq<RegimeStats> {
    let s = summary_for(trades, regime_group(r));
    if s.count > 0 {
        seq![RegimeStats { regime: r, summary: s }]
    } else {
        Seq::empty()
    }
}

fn push_regime(v: &mut Vec<RegimeStats>, trades: &Vec<TradeRecord>, r: Regime)
    requires
        records_ok(trades@),
        regimes_ok(old(v)@),
    ensures
        regimes_ok(final(v)@),
        final(v)@ == old(v)@ + regime_row(trade_views(trades@), r),
{
    let mut g: Group = Group::all();
    g.regime = Some(r);
    let s: Summary = summarize(trades, &g);
    if s.count > 0 {
        v.push(RegimeStats { regime: r, summary: s });
    }
    assert(v@ =~= old(v)@ + regime_row(trade_views(trades@), r));
}

/// The statistics of the regimes that have trades, in alphabetical order.
pub open spec fn regime_rows_of(trades: Seq<TradeView>) -> Seq<RegimeStats> {
    regime_row(trades, Regime::Illiquid) + regime_row(trades, Regime::Ranging) + regime_row(
        trades,
        Regime::Trending,
    ) + regime_row(trades, Regime::Volatile)
}

/// Splits the trades by the regime at their entry. The regimes are in alphabetical
/// order, and only those with trades are listed.
pub fn compute_regime_stats(trades: &Vec<TradeRecord>) -> (v: Vec<RegimeStats>)
    requires
        records_ok(trades@),
    ensures
        v@ == regime_rows_of(trade_views(trades@)),
        regimes_ok(v@),
{
    let mut v: Vec<RegimeStats> = Vec::new();
    push_regime(&mut v, trades, Regime::Illiquid);
    push_regime(&mut v, trades, Regime::Ranging);
    push_regime(&mut v, trades, Regime::Trending);
    push_regime(&mut v, trades, Regime::Volatile);
    assert(v@ =~= regime_rows_of(trade_views(trades@)));
    v
}

/// How many of the first `n` bars fall into a regime.
pub open spec fn bars_in(bars: Seq<Bar>, r: Regime, n: int) -> int
    decreases n,
{
    if n <= 0 {
        0
    } else {
        bars_in(bars, r, n - 1) + (if bars[n - 1].reading.regime == r {
            1int
        } else {
            0
        })
    }
}

/// How many bars fall into a regime.
pub fn count_bars(bars: &Vec<Bar>, r: Regime) -> (n: usize)
    ensures
        n == bars_in(bars@, r, bars@.len() as int),
        n <= bars@.len(),
{
    let mut n: usize = 0;
    let mut i: usize = 0;
    while i < bars.len()
        invariant
            i <= bars@.len(),
            n == bars_in(bars@, r, i as int),
            n <= i,
        decreases bars@.len() - i,
    {
        if bars[i].reading.regime == r {
            n += 1;
        }
        i += 1;
    }
    n
}

/// How many bars fall into each regime.
#[derive(Clone, Copy, Debug, PartialEq, Eq, Structural)]
pub struct RegimeBars {
    pub regime: Regime,
    pub bars: usize,
}

/// A regime with its bars, where it has any.
pub open spec fn bars_row(bars: Seq<Bar>, r: Regime) -> Seq<RegimeBars> {
    let n = bars_in(bars, r, bars.len() as int);
    if n > 0 {
        seq![RegimeBars { regime: r, bars: n as usize }]
    } else {
        Seq::empty()
    }
}

fn push_bars(v: &mut Vec<RegimeBars>, bars: &Vec<Bar>, r: Regime)
    ensures
        final(v)@ == old(v)@ + bars_row(bars@, r),
{
    let n: usize = count_bars(bars, r);
    if n > 0 {
        v.push(RegimeBars { regime: r, bars: n });
    }
    assert(v@ =~= old(v)@ + bars_row(bars@, r));
}

/// The regimes that occur among the bars, in alphabetical order.
pub open spec fn bar_counts(bars: Seq<Bar>) -> Seq<RegimeBars> {
    bars_row(bars, Regime::Illiquid) + bars_row(bars, Regime::Ranging) + bars_row(
        bars,
        Regime::Trending,
    ) + bars_row(bars, Regime::Volatile)
}

/// Counts the bars of each regime that occurs.
pub fn count_regimes(bars: &Vec<Bar>) -> (v: Vec<RegimeBars>)
    ensures
        v@ == bar_counts(bars@),
{
    let mut v: Vec<RegimeBars> = Vec::new();
    push_bars(&mut v, bars, Regime::Illiquid);
    push_bars(&mut v, bars, Regime::Ranging);
    push_bars(&mut v, bars, Regime::Trending);
    push_bars(&mut v, bars, Regime::Volatile);
    assert(v@ =~= bar_counts(bars@));
    v
}

/// How many bars the rows count together.
pub open spec fn bars_counted(rows: Seq<RegimeBars>) -> int
    decreases rows.len(),
{
    if rows.len() == 0 {
        0
    } else {
        bars_counted(rows.drop_last()) + rows.last().bars
    }
}

/// The names of the regimes that are counted.
pub open spec fn counted_names(rows: Seq<RegimeBars>) -> Seq<Seq<char>> {
    Seq::new(rows.len(), |i: int| regime_text(rows[i].regime))
}

proof fn lemma_count_one_more(rows: Seq<RegimeBars>, bars: Seq<Bar>, r: Regime)
    requires
        bars.len() <= usize::MAX,
    ensures
        bars_counted(rows + bars_row(bars, r)) == bars_counted(rows) + bars_in(
            bars,
            r,
            bars.len() as int,
        ),
{
    let row = bars_row(bars, r);
    let n = bars.len() as int;
    lemma_regimes_add_up(bars, n);
    if row.len() == 0 {
        assert(rows + row =~= rows);
    } else {
        assert((rows + row).drop_last() =~= rows);
    }
}

/// Each bar is in one regime.
proof fn lemma_regimes_add_up(bars: Seq<Bar>, n: int)
    requires
        0 <= n <= bars.len(),
    ensures
        bars_in(bars, Regime::Illiquid, n) + bars_in(bars, Regime::Ranging, n) + bars_in(
            bars,
            Regime::Trending,
            n,
        ) + bars_in(bars, Regime::Volatile, n) == n,
        forall|r: Regime| 0 <= #[trigger] bars_in(bars, r, n) <= n,
    decreases n,
{
    if n > 0 {
        lemma_regimes_add_up(bars, n - 1);
        assert forall|r: Regime| 0 <= #[trigger] bars_in(bars, r, n) <= n by {
            assert(0 <= bars_in(bars, r, n - 1) <= n - 1);
        }
    }
}

/// The counts of the regimes add up to the number of bars, and are listed in the
/// alphabetical order of their names.
pub proof fn law_counts_cover_the_bars(bars: Seq<Bar>)
    requires
        bars.len() <= usize::MAX,
    ensures
        bars_counted(bar_counts(bars)) == bars.len(),
        ascending(counted_names(bar_counts(bars))),
{
    let a = bars_row(bars, Regime::Illiquid);
    let b = a + bars_row(bars, Regime::Ranging);
    let c = b + bars_row(bars, Regime::Trending);
    assert(Seq::<RegimeBars>::empty() + a =~= a);
    lemma_count_one_more(Seq::empty(), bars, Regime::Illiquid);
    lemma_count_one_more(a, bars, Regime::Ranging);
    lemma_count_one_more(b, bars, Regime::Trending);
    lemma_count_one_more(c, bars, Regime::Volatile);
    lemma_regimes_add_up(bars, bars.len() as int);
    lemma_regime_names();
    let rows = bar_counts(bars);
    let names = counted_names(rows);
    assert forall|i: int, j: int| 0 <= i < j < names.len() implies text_less(
        #[trigger] names[i],
        #[trigger] names[j],
    ) by {
        assert(names[i] == regime_text(rows[i].regime));
        assert(names[j] == regime_text(rows[j].regime));
    }
}

proof fn lemma_regime_names()
    ensures
        text_less("Illiquid"@, "Ranging"@),
        text_less("Illiquid"@, "Trending"@),
        text_less("Illiquid"@, "Volatile"@),
        text_less("Ranging"@, "Trending"@),
        text_less("Ranging"@, "Volatile"@),
        text_less("Trending"@, "Volatile"@),
{
    reveal_strlit("Illiquid");
    reveal_strlit("Ranging");
    reveal_strlit("Trending");
    reveal_strlit("Volatile");
}

/// Everything that a backtest yields.
pub struct BacktestReport {
    pub config: BacktestConfig,
    pub trades: Vec<TradeRecord>,
    pub equity_curve: Vec<CurvePoint>,
    pub drawdown_curve: Vec<CurvePoint>,
    pub metrics: BacktestMetrics,
    pub score_buckets: Vec<ScoreBucket>,
    pub regime_stats: Vec<RegimeStats>,
    /// The bars of each regime, whether or not a trade followed.
    pub regime_bar_counts: Vec<RegimeBars>,
}

impl BacktestReport {
    /// Every amount is within the range of the arithmetic.
    pub open spec fn ok(self) -> bool {
        &&& records_ok(self.trades@)
        &&& curve_ok(self.equity_curve@)
        &&& curve_ok(self.drawdown_curve@)
        &&& self.config.ok()
        &&& bounded(self.metrics.final_equity as int)
        &&& 0 <= self.metrics.win_rate <= ONE
        &&& buckets_ok(self.score_buckets@)
        &&& regimes_ok(self.regime_stats@)
    }

    /// Whether this reports the replay of the bars.
    pub open spec fn reports(
        self,
        bars: Seq<Bar>,
        last: Candle,
        cfg: BacktestConfig,
        set: SignalSettings,
    ) -> bool {
        let s = replayed(bars, bars.len() as int, cfg, set).finished(last, cfg);
        &&& trade_views(self.trades@) == s.trades
        &&& self.equity_curve@ == s.equity_curve
        &&& self.drawdown_curve@ == s.drawdown_curve
        &&& self.metrics.final_equity == s.equity
        &&& self.metrics.total_fees_usdt == s.total_fees
        &&& self.metrics.total_slippage_usdt == s.total_slippage
        &&& self.config == cfg
        &&& self.regime_bar_counts@ == bar_counts(bars)
    }

    /// Whether this keeps of a report the trades that entered at `from_ms` or later,
    /// and of the rest all that does not follow from the trades.
    pub open spec fn keeps(self, whole: BacktestReport, from_ms: u64) -> bool {
        &&& trade_views(self.trades@) == entered_from(
            trade_views(whole.trades@),
            from_ms,
            whole.trades@.len() as int,
        )
        &&& self.equity_curve@ == whole.equity_curve@
        &&& self.drawdown_curve@ == whole.drawdown_curve@
        &&& self.metrics.final_equity == whole.metrics.final_equity
        &&& self.metrics.total_fees_usdt == whole.metrics.total_fees_usdt
        &&& self.metrics.total_slippage_usdt == whole.metrics.total_slippage_usdt
        &&& self.config == whole.config
        &&& self.regime_bar_counts@ == whole.regime_bar_counts@
    }

    /// The figures are those of the trades and of the curve of drawdowns.
    pub open spec fn adds_up(self) -> bool {
        let views = trade_views(self.trades@);
        &&& self.metrics == metrics_of(
            self.config.starting_capital as int,
            self.metrics.final_equity,
            views,
            self.drawdown_curve@,
            self.metrics.total_fees_usdt,
            self.metrics.total_slippage_usdt,
        )
        &&& is_score_buckets(self.score_buckets@, views)
        &&& self.regime_stats@ == regime_rows_of(views)
    }
}

/// Runs a backtest over the bars and reports it.
pub fn run_backtest(
    bars: &Vec<Bar>,
    last: &Candle,
    cfg: &BacktestConfig,
    set: &SignalSettings,
) -> (r: BacktestReport)
    requires
        bars@.len() <= TRADES_MAX,
        forall|i: int| 0 <= i < bars@.len() ==> (#[trigger] bars@[i]).ok(),
        bounded(last.close as int),
        cfg.ok(),
    ensures
        r.reports(bars@, *last, *cfg, *set),
        r.adds_up(),
        r.ok(),
{
    let s: Sim = simulate(bars, last, cfg, set);
    proof {
        law_one_entry_per_bar(bars@, bars@.len() as int, *last, *cfg, *set);
        assert(s@.trades.len() == s.trades@.len());
        assert forall|i: int| 0 <= i < s.trades@.len() implies (#[trigger] s.trades@[i])@.ok() by {
            assert(s@.trades[i].ok());
        }
    }
    let metrics: BacktestMetrics = compute_metrics(
        cfg.starting_capital,
        s.equity,
        &s.trades,
        &s.drawdown_curve,
        s.total_fees,
        s.total_slippage,
    );
    BacktestReport {
        config: *cfg,
        metrics,
        score_buckets: compute_score_buckets(&s.trades),
        regime_stats: compute_regime_stats(&s.trades),
        regime_bar_counts: count_regimes(bars),
        trades: s.trades,
        equity_curve: s.equity_curve,
        drawdown_curve: s.drawdown_curve,
    }
}

/// Which text of a trade names a group.
#[derive(Clone, Copy, Debug, PartialEq, Eq, Structural)]
pub enum Key {
    Strategy,
    ExitReason,
}

/// The text of a trade that names its group.
pub open spec fn key_of(t: TradeView, k: Key) -> Seq<char> {
    match k {
        Key::Strategy => t.strategy,
        Key::ExitReason => reason_of(t),
    }
}

/// Whether `names` are the names of the trades of a group, in alphabetical order and
/// each once.
pub open spec fn is_names(
    names: Seq<Seq<char>>,
    trades: Seq<TradeView>,
    g: GroupView,
    k: Key,
) -> bool {
    names_up_to(names, trades, g, k, trades.len() as int)
}

/// Whether `names` are the names of those of the first `n` trades that belong to a
/// group.
pub open spec fn names_up_to(
    names: Seq<Seq<char>>,
    trades: Seq<TradeView>,
    g: GroupView,
    k: Key,
    n: int,
) -> bool {
    &&& ascending(names)
    &&& forall|x: Seq<char>| #[trigger]
        names.contains(x) <==> exists|i: int|
            0 <= i < n && belongs(#[trigger] trades[i], g) && key_of(trades[i], k) == x
}

/// One more trade that belongs to a group adds its name.
proof fn lemma_name_added(
    before: Seq<Seq<char>>,
    after: Seq<Seq<char>>,
    trades: Seq<TradeView>,
    g: GroupView,
    k: Key,
    n: int,
)
    requires
        0 <= n < trades.len(),
        names_up_to(before, trades, g, k, n),
        ascending(after),
        belongs(trades[n], g) ==> forall|x: Seq<char>| #[trigger]
            after.contains(x) <==> before.contains(x) || x == key_of(trades[n], k),
        !belongs(trades[n], g) ==> after == before,
    ensures
        names_up_to(after, trades, g, k, n + 1),
{
    assert forall|x: Seq<char>| #[trigger] after.contains(x) <==> exists|i: int|
        0 <= i < n + 1 && belongs(#[trigger] trades[i], g) && key_of(trades[i], k) == x by {
        if before.contains(x) {
            let i = choose|i: int|
                0 <= i < n && belongs(#[trigger] trades[i], g) && key_of(trades[i], k) == x;
            assert(belongs(trades[i], g) && key_of(trades[i], k) == x);
        }
        if exists|i: int|
            0 <= i < n + 1 && belongs(#[trigger] trades[i], g) && key_of(trades[i], k) == x {
            let i = choose|i: int|
                0 <= i < n + 1 && belongs(#[trigger] trades[i], g) && key_of(trades[i], k) == x;
            if i < n {
                assert(before.contains(x));
            }
        }
    }
}

/// The names of the trades of a group, in alphabetical order and each once.
pub fn group_names(trades: &Vec<TradeRecord>, g: &Group, k: Key) -> (v: Vec<String>)
    requires
        records_ok(trades@),
    ensures
        is_names(texts(v@), trade_views(trades@), g@, k),
{
    let ghost views = trade_views(trades@);
    let mut v: Vec<String> = Vec::new();
    assert(texts(v@) =~= Seq::empty());
    let mut i: usize = 0;
    while i < trades.len()
        invariant
            i <= trades@.len(),
            records_ok(trades@),
            views == trade_views(trades@),
            names_up_to(texts(v@), views, g@, k, i as int),
        decreases trades@.len() - i,
    {
        let t: &TradeRecord = &trades[i];
        assert(trades@[i as int]@.ok());
        assert(views[i as int] == t@);
        let ghost before = texts(v@);
        if belongs_to(t, g) {
            match k {
                Key::Strategy => insert_text(&mut v, t.strategy.as_str()),
                Key::ExitReason => match &t.exit_reason {
                    Some(r) => insert_text(&mut v, r.as_str()),
                    None => insert_text(&mut v, "unknown"),
                },
            }
        }
        proof {
            lemma_name_added(before, texts(v@), views, g@, k, i as int);
        }
        i += 1;
    }
    v
}

/// The trades that entered at `from_ms` or later.
pub open spec fn entered_from(trades: Seq<TradeView>, from_ms: u64, n: int) -> Seq<TradeView>
    decreases n,
{
    if n <= 0 {
        Seq::empty()
    } else if trades[n - 1].entry_time_ms >= from_ms {
        entered_from(trades, from_ms, n - 1).push(trades[n - 1])
    } else {
        entered_from(trades, from_ms, n - 1)
    }
}

/// Keeps the trades that entered at `from_ms` or later, in their order.
pub fn keep_entered_from(trades: Vec<TradeRecord>, from_ms: u64) -> (v: Vec<TradeRecord>)
    ensures
        trade_views(v@) == entered_from(trade_views(trades@), from_ms, trades@.len() as int),
{
    let ghost views = trade_views(trades@);
    let ghost all = trades@;
    let mut rest: Vec<TradeRecord> = trades;
    let mut kept: Vec<TradeRecord> = Vec::new();
    assert(trade_views(kept@) =~= Seq::empty());
    while rest.len() > 0
        invariant
            rest@.len() <= all.len(),
            views == trade_views(all),
            rest@ == all.skip(all.len() - rest@.len()),
            trade_views(kept@) == entered_from(views, from_ms, all.len() - rest@.len()),
        decreases rest@.len(),
    {
        let ghost at = all.len() - rest@.len();
        let t: TradeRecord = rest.remove(0);
        assert(t == all[at]);
        assert(views[at] == t@);
        assert(rest@ =~= all.skip(at + 1));
        if t.entry_time_ms >= from_ms {
            let ghost before = kept@;
            kept.push(t);
            assert(trade_views(kept@) =~= trade_views(before).push(t@));
        }
    }
    kept
}

/// Reduces a report to the trades that entered at `from_ms` or later, and computes
/// its figures anew. The curves and the totals stay.
pub fn keep_test_trades(report: BacktestReport, from_ms: u64) -> (r: BacktestReport)
    requires
        report.ok(),
    ensures
        r.keeps(report, from_ms),
        r.adds_up(),
        r.ok(),
{
    let ghost views = trade_views(report.trades@);
    let old_metrics: BacktestMetrics = report.metrics;
    let trades: Vec<TradeRecord> = keep_entered_from(report.trades, from_ms);
    proof {
        assert(forall|i: int| 0 <= i < views.len() ==> (#[trigger] views[i]).ok());
        lemma_kept_ok(views, from_ms, views.len() as int);
        assert(trade_views(trades@).len() == trades@.len());
        assert forall|i: int| 0 <= i < trades@.len() implies (#[trigger] trades@[i])@.ok() by {
            assert(trade_views(trades@)[i].ok());
        }
    }
    let metrics: BacktestMetrics = compute_metrics(
        report.config.starting_capital,
        old_metrics.final_equity,
        &trades,
        &report.drawdown_curve,
        old_metrics.total_fees_usdt,
        old_metrics.total_slippage_usdt,
    );
    BacktestReport {
        config: report.config,
        metrics,
        score_buckets: compute_score_buckets(&trades),
        regime_stats: compute_regime_stats(&trades),
        regime_bar_counts: report.regime_bar_counts,
        trades,
        equity_curve: report.equity_curve,
        drawdown_curve: report.drawdown_curve,
    }
}

/// What was kept is as sound as what there was.
proof fn lemma_kept_ok(trades: Seq<TradeView>, from_ms: u64, n: int)
    requires
        0 <= n <= trades.len(),
        forall|i: int| 0 <= i < trades.len() ==> (#[trigger] trades[i]).ok(),
    ensures
        entered_from(trades, from_ms, n).len() <= n,
        forall|i: int|
            0 <= i < entered_from(trades, from_ms, n).len() ==> (#[trigger] entered_from(
                trades,
                from_ms,
                n,
            )[i]).ok(),
    decreases n,
{
    if n > 0 {
        lemma_kept_ok(trades, from_ms, n - 1);
    }
}

/// Among the trades that were kept, none entered before the given time.
pub proof fn law_test_trades_enter_in_the_test(trades: Seq<TradeView>, from_ms: u64, n: int, i: int)
    requires
        0 <= n <= trades.len(),
        0 <= i < entered_from(trades, from_ms, n).len(),
    ensures
        entered_from(trades, from_ms, n)[i].entry_time_ms >= from_ms,
    decreases n,
{
    if n > 0 && i < entered_from(trades, from_ms, n - 1).len() {
        law_test_trades_enter_in_the_test(trades, from_ms, n - 1, i);
    }
}

} // verus!
