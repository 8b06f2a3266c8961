//! Replaying history: the simulation of the strategies bar by bar, and the windows
//! of data that it looks at.
use crate::features::{Candle, Features};
use crate::fixed::{
    bounded, div_bounded, lemma_round_div_error, lemma_round_div_exact, lemma_round_div_monotone,
    product, quotient, max_fixed, max_of, min_fixed, min_of, mul_bounded, over, product_at_least,
    product_at_most, saturate, saturated, times, within, LIMIT, ONE,
};
use crate::regime::Regime;
use crate::signals::{
    entry_long_signal, entry_signal, law_entries_are_ranked, Action, Signal, SignalSettings,
    SignalView,
};
use crate::state::{managed, BotState, Managed, Position, PositionDecision};
use crate::telemetry::{opened_record, FeatureSnapshot, TradeRecord, TradeView};
use crate::tick::{Reading, TickView};
use vstd::prelude::*;

verus! {

/// The terms of a simulation.
#[derive(Clone, Copy, Debug, PartialEq, Eq, Structural)]
pub struct BacktestConfig {
    pub starting_capital: i128,
    /// The fee per side, as a fraction.
    pub fee_rate: i128,
    /// The slippage per side, as a fraction of the price.
    pub slippage_pct: i128,
    /// The share of the equity that a trade risks.
    pub risk_fraction: i128,
    /// The most that a trade risks.
    pub max_risk_usdt: i128,
    /// The largest share of the equity that a trade may be worth.
    pub max_notional_fraction: i128,
}

impl BacktestConfig {
    /// Every term is within the range of the arithmetic.
    pub open spec fn ok(self) -> bool {
        &&& bounded(self.starting_capital as int)
        &&& bounded(self.fee_rate as int)
        &&& bounded(self.slippage_pct as int)
        &&& bounded(self.risk_fraction as int)
        &&& bounded(self.max_risk_usdt as int)
        &&& bounded(self.max_notional_fraction as int)
    }
}

impl Default for BacktestConfig {
    /// 10000 USDT, 0.1% fee, 0.05% slippage, 1% risk, at most 200 USDT at risk, and
    /// at most 20% of the equity in a trade.
    fn default() -> (c: BacktestConfig)
        ensures
            c.ok(),
            c == (BacktestConfig {
                starting_capital: 10_000_000_000_000_000,
                fee_rate: 1_000_000_000,
                slippage_pct: 500_000_000,
                risk_fraction: 10_000_000_000,
                max_risk_usdt: 200_000_000_000_000,
                max_notional_fraction: 200_000_000_000,
            }),
    {
        BacktestConfig {
            starting_capital: 10_000_000_000_000_000,
            fee_rate: 1_000_000_000,
            slippage_pct: 500_000_000,
            risk_fraction: 10_000_000_000,
            max_risk_usdt: 200_000_000_000_000,
            max_notional_fraction: 200_000_000_000,
        }
    }
}

/// One bar of the replay: the candle, and what was known when it closed.
#[derive(Clone, Copy, Debug, PartialEq, Eq, Structural)]
pub struct Bar {
    pub candle: Candle,
    pub features: Features,
    pub reading: Reading,
    pub snapshot: FeatureSnapshot,
}

impl Bar {
    /// Prices and features are within the range of the arithmetic.
    pub open spec fn ok(self) -> bool {
        bounded(self.candle.high as int) && bounded(self.candle.low as int) && bounded(
            self.candle.close as int,
        ) && self.features.ok() && self.snapshot.ok()
    }

    /// Whether prices and features are within the range of the arithmetic.
    pub fn in_range(&self) -> (r: bool)
        ensures
            r == self.ok(),
    {
        within(self.candle.high) && within(self.candle.low) && within(self.candle.close)
            && self.features.in_range() && within(self.snapshot.ema20_1h) && within(
            self.snapshot.ema50_1h,
        )
    }
}

/// The time of a candle, never below zero.
pub open spec fn candle_ms(c: Candle) -> u64 {
    max_of(c.open_time as int, 0) as u64
}

/// The time of a candle, never below zero.
pub fn time_of(c: &Candle) -> (t: u64)
    ensures
        t == candle_ms(*c),
{
    if c.open_time > 0 {
        c.open_time as u64
    } else {
        0
    }
}

/// A point of a curve.
#[derive(Clone, Copy, Debug, PartialEq, Eq, Structural)]
pub struct CurvePoint {
    pub time_ms: u64,
    pub value: i128,
}

/// Every value of a curve is within the range of the arithmetic.
pub open spec fn curve_ok(curve: Seq<CurvePoint>) -> bool {
    forall|i: int| 0 <= i < curve.len() ==> bounded((#[trigger] curve[i]).value as int)
}

/// The position that the simulation holds.
#[derive(Debug)]
pub struct SimPosition {
    pub regime: Regime,
    pub strategy: String,
    pub score: i128,
    pub entry_time_ms: u64,
    pub entry_price: i128,
    pub qty: i128,
    pub stop_price: i128,
    pub tp_price: Option<i128>,
    pub peak_price: i128,
    pub last_peak_time_ms: u64,
    pub entry_fee: i128,
    pub features: FeatureSnapshot,
    pub mfe_price: i128,
    pub mae_price: i128,
}

/// The content of a [`SimPosition`].
pub struct SimPositionView {
    pub regime: Regime,
    pub strategy: Seq<char>,
    pub score: i128,
    pub entry_time_ms: u64,
    pub entry_price: i128,
    pub qty: i128,
    pub stop_price: i128,
    pub tp_price: Option<i128>,
    pub peak_price: i128,
    pub last_peak_time_ms: u64,
    pub entry_fee: i128,
    pub features: FeatureSnapshot,
    pub mfe_price: i128,
    pub mae_price: i128,
}

impl View for SimPosition {
    type V = SimPositionView;

    open spec fn view(&self) -> SimPositionView {
        SimPositionView {
            regime: self.regime,
            strategy: self.strategy@,
            score: self.score,
            entry_time_ms: self.entry_time_ms,
            entry_price: self.entry_price,
            qty: self.qty,
            stop_price: self.stop_price,
            tp_price: self.tp_price,
            peak_price: self.peak_price,
            last_peak_time_ms: self.last_peak_time_ms,
            entry_fee: self.entry_fee,
            features: self.features,
            mfe_price: self.mfe_price,
            mae_price: self.mae_price,
        }
    }
}

impl SimPositionView {
    /// Every amount is within the range of the arithmetic.
    pub open spec fn ok(self) -> bool {
        &&& bounded(self.entry_price as int)
        &&& bounded(self.qty as int)
        &&& bounded(self.stop_price as int)
        &&& self.tp_price is Some ==> bounded(self.tp_price->0 as int)
        &&& bounded(self.peak_price as int)
        &&& bounded(self.entry_fee as int)
        &&& bounded(self.mfe_price as int)
        &&& bounded(self.mae_price as int)
        &&& self.features.ok()
    }

    /// The position as the position manager sees it. Its stop counts as the
    /// initial one.
    pub open spec fn as_long(self) -> Position {
        Position::Long {
            entry_price: self.entry_price,
            qty: self.qty,
            initial_stop_price: self.stop_price,
            stop_price: self.stop_price,
            tp_price: self.tp_price,
            peak_price: self.peak_price,
            entry_time_ms: self.entry_time_ms,
            last_peak_time_ms: self.last_peak_time_ms,
            stop_order_id: None,
            exchange_stop_price: None,
        }
    }

    /// Whether a price has earned the costs of both ways: it is at least
    /// `entry * (1 + 2 * fee + 2 * slippage)`, compared before anything is rounded.
    pub open spec fn costs_earned(self, price: int, cfg: BacktestConfig) -> bool {
        self.entry_price * (ONE + 2 * cfg.fee_rate + 2 * cfg.slippage_pct) <= price * ONE
    }

    /// What the position manager says at the close of a bar.
    pub open spec fn judged(self, bar: Bar, cfg: BacktestConfig) -> Managed {
        let price = bar.candle.close;
        if bar.reading.regime == Regime::Ranging && price >= bar.features.bb_mid20_5m
            && self.costs_earned(price as int, cfg) && bar.features.rsi14_5m >= 50 * ONE {
            Managed {
                position: self.as_long(),
                decision: PositionDecision::ExitLong,
                reason: "Mean reversion done. We take profit."@,
            }
        } else {
            managed(
                self.as_long(),
                price as int,
                bar.features.atr14_5m as int,
                candle_ms(bar.candle),
                bar.reading.bearish_bias,
            )
        }
    }

    /// The position after a bar: the excursions, the stop and the peak follow the
    /// bar.
    pub open spec fn watched(self, bar: Bar, cfg: BacktestConfig) -> SimPositionView {
        let after = self.judged(bar, cfg).position;
        SimPositionView {
            mfe_price: max_of(
                max_of(saturated(bar.candle.high - self.entry_price), 0),
                self.mfe_price as int,
            ) as i128,
            mae_price: max_of(
                max_of(saturated(self.entry_price - bar.candle.low), 0),
                self.mae_price as int,
            ) as i128,
            stop_price: after->stop_price,
            peak_price: after->peak_price,
            last_peak_time_ms: after->last_peak_time_ms,
            ..self
        }
    }

    /// How the position is left in a bar: at the stop if the low reaches it, else
    /// at the take-profit if the high reaches it, else at the close if the manager
    /// says so.
    pub open spec fn exit_in(self, bar: Bar, cfg: BacktestConfig) -> Option<(i128, Seq<char>)> {
        if bar.candle.low <= self.stop_price {
            Some((self.stop_price, "stop_hit"@))
        } else if self.tp_price is Some && bar.candle.high >= self.tp_price->0 {
            Some((self.tp_price->0, "tp_hit"@))
        } else if self.judged(bar, cfg).decision == PositionDecision::ExitLong {
            Some((bar.candle.close, self.judged(bar, cfg).reason))
        } else {
            None
        }
    }

    /// The fee of leaving at a price.
    pub open spec fn exit_fee(self, exit_price: int, cfg: BacktestConfig) -> int {
        times(times(self.qty as int, exit_price), cfg.fee_rate as int)
    }

    /// The record of the position.
    pub open spec fn record(
        self,
        exit_ms: u64,
        exit_price: i128,
        reason: Seq<char>,
        cfg: BacktestConfig,
    ) -> TradeView {
        opened_record(
            "BACKTEST"@,
            self.regime,
            self.strategy,
            self.score,
            self.entry_time_ms,
            self.entry_price,
            self.qty,
            self.stop_price,
            self.tp_price,
            self.entry_fee,
            self.features,
        ).closed(
            exit_ms,
            exit_price,
            reason,
            self.exit_fee(exit_price as int, cfg) as i128,
            Some(times(self.mfe_price as int, self.qty as int) as i128),
            Some(times(self.mae_price as int, self.qty as int) as i128),
        )
    }
}

/// A simulation under way.
pub struct Sim {
    pub equity: i128,
    pub peak_equity: i128,
    pub total_fees: i128,
    pub total_slippage: i128,
    pub equity_curve: Vec<CurvePoint>,
    pub drawdown_curve: Vec<CurvePoint>,
    pub trades: Vec<TradeRecord>,
    pub open: Option<SimPosition>,
}

/// The content of a [`Sim`].
pub struct SimView {
    pub equity: int,
    pub peak_equity: int,
    pub total_fees: int,
    pub total_slippage: int,
    pub equity_curve: Seq<CurvePoint>,
    pub drawdown_curve: Seq<CurvePoint>,
    pub trades: Seq<TradeView>,
    pub open: Option<SimPositionView>,
}

/// The contents of a list of trades.
pub open spec fn trade_views(t: Seq<TradeRecord>) -> Seq<TradeView> {
    Seq::new(t.len(), |i: int| t[i]@)
}

impl View for Sim {
    type V = SimView;

    open spec fn view(&self) -> SimView {
        SimView {
            equity: self.equity as int,
            peak_equity: self.peak_equity as int,
            total_fees: self.total_fees as int,
            total_slippage: self.total_slippage as int,
            equity_curve: self.equity_curve@,
            drawdown_curve: self.drawdown_curve@,
            trades: trade_views(self.trades@),
            open: match self.open {
                Some(p) => Some(p@),
                None => None,
            },
        }
    }
}

impl SimView {
    /// Every amount is within the range of the arithmetic.
    pub open spec fn ok(self) -> bool {
        &&& bounded(self.equity)
        &&& bounded(self.peak_equity)
        &&& bounded(self.total_fees)
        &&& bounded(self.total_slippage)
        &&& self.open is Some ==> self.open->0.ok()
        &&& forall|i: int| 0 <= i < self.trades.len() ==> (#[trigger] self.trades[i]).ok()
        &&& curve_ok(self.equity_curve)
        &&& curve_ok(self.drawdown_curve)
    }

    /// A simulation before its first bar.
    pub open spec fn fresh(cfg: BacktestConfig) -> SimView {
        SimView {
            equity: cfg.starting_capital as int,
            peak_equity: cfg.starting_capital as int,
            total_fees: 0,
            total_slippage: 0,
            equity_curve: Seq::empty(),
            drawdown_curve: Seq::empty(),
            trades: Seq::empty(),
            open: None,
        }
    }

    /// The position `p` is left at a price that the slippage makes worse.
    pub open spec fn left(
        self,
        p: SimPositionView,
        exit_price: i128,
        reason: Seq<char>,
        now_ms: u64,
        cfg: BacktestConfig,
    ) -> SimView {
        let slip = times(exit_price as int, cfg.slippage_pct as int);
        let exit_slip = times(slip, p.qty as int);
        let exit_fee = p.exit_fee(exit_price as int, cfg);
        let gross = times(saturated(exit_price - slip) - p.entry_price, p.qty as int);
        let equity = saturated(self.equity + saturated(gross - p.entry_fee - exit_fee));
        let entry_slip = times(
            times(p.entry_price as int, cfg.slippage_pct as int),
            p.qty as int,
        );
        SimView {
            equity,
            peak_equity: max_of(equity, self.peak_equity),
            total_fees: saturated(self.total_fees + exit_fee),
            total_slippage: saturated(self.total_slippage + exit_slip),
            trades: self.trades.push(
                TradeView {
                    slippage_usdt: Some(saturated(exit_slip + entry_slip) as i128),
                    ..p.record(now_ms, exit_price, reason, cfg)
                },
            ),
            open: None,
            ..self
        }
    }

    /// The open position is managed.
    pub open spec fn managed_in(self, bar: Bar, cfg: BacktestConfig) -> SimView {
        match self.open {
            None => self,
            Some(p) => {
                let q = p.watched(bar, cfg);
                match p.exit_in(bar, cfg) {
                    Some(x) => self.left(q, x.0, x.1, candle_ms(bar.candle), cfg),
                    None => SimView { open: Some(q), ..self },
                }
            },
        }
    }

    /// How far the equity is under its peak, in percent.
    pub open spec fn drawdown_pct(self) -> int {
        if self.peak_equity > 0 {
            saturated(100 * over(self.peak_equity - self.equity, self.peak_equity))
        } else {
            0
        }
    }

    /// The curves get a point.
    pub open spec fn sampled(self, now_ms: u64) -> SimView {
        SimView {
            equity_curve: self.equity_curve.push(
                CurvePoint { time_ms: now_ms, value: self.equity as i128 },
            ),
            drawdown_curve: self.drawdown_curve.push(
                CurvePoint { time_ms: now_ms, value: self.drawdown_pct() as i128 },
            ),
            ..self
        }
    }

    /// The signal at the close of a bar.
    #[verifier::opaque]
    pub open spec fn signal(bar: Bar, set: SignalSettings) -> SignalView {
        entry_signal(
            bar.reading.regime,
            bar.features,
            bar.candle.close as int,
            bar.reading.vol_ratio as int,
            bar.reading.vol_squeeze,
            bar.reading.htf_bullish,
            bar.reading.bearish_bias,
            set,
        )
    }

    /// The quantity of an entry: what the risk allows down to the stop, and no more
    /// than the cap buys.
    pub open spec fn entry_qty(self, price: int, stop: int, cfg: BacktestConfig) -> int {
        let risk = min_of(
            times(self.equity, cfg.risk_fraction as int),
            cfg.max_risk_usdt as int,
        );
        let raw = over(risk, max_of(price - stop, 1));
        let cap = max_of(times(self.equity, cfg.max_notional_fraction as int), 0);
        if cap > 0 && price > 0 && raw * price > cap * ONE {
            over(cap, price)
        } else {
            raw
        }
    }

    /// A position is opened where the signal says so and the trade is worth at
    /// least five USDT.
    pub open spec fn entered_in(self, bar: Bar, cfg: BacktestConfig, set: SignalSettings) -> SimView {
        let sig = SimView::signal(bar, set);
        let price = bar.candle.close as int;
        let stop = saturated(sig.stop_price->0);
        let qty = self.entry_qty(price, stop, cfg);
        if sig.action != Action::EnterLong || qty <= 0 || price * qty < 5 * ONE * ONE {
            self
        } else {
            let slip = times(price, cfg.slippage_pct as int);
            let entry = saturated(price + slip);
            let fee = times(times(qty, entry), cfg.fee_rate as int);
            let now_ms = candle_ms(bar.candle);
            SimView {
                total_fees: saturated(self.total_fees + fee),
                total_slippage: saturated(self.total_slippage + times(slip, qty)),
                open: Some(
                    SimPositionView {
                        regime: bar.reading.regime,
                        strategy: sig.strategy,
                        score: sig.score as i128,
                        entry_time_ms: now_ms,
                        entry_price: entry as i128,
                        qty: qty as i128,
                        stop_price: stop as i128,
                        tp_price: Some(saturated(price + 3 * (price - stop)) as i128),
                        peak_price: entry as i128,
                        last_peak_time_ms: now_ms,
                        entry_fee: fee as i128,
                        features: bar.snapshot,
                        mfe_price: 0,
                        mae_price: 0,
                    },
                ),
                ..self
            }
        }
    }

    /// The simulation after one more bar.
    pub open spec fn after_bar(self, bar: Bar, cfg: BacktestConfig, set: SignalSettings) -> SimView {
        let m = self.managed_in(bar, cfg).sampled(candle_ms(bar.candle));
        if m.open is None {
            m.entered_in(bar, cfg, set)
        } else {
            m
        }
    }

    /// A position that is still open at the end is left at the last close.
    pub open spec fn finished(self, last: Candle, cfg: BacktestConfig) -> SimView {
        match self.open {
            None => self,
            Some(p) => {
                let fee = p.exit_fee(last.close as int, cfg);
                let gross = times(last.close - p.entry_price, p.qty as int);
                SimView {
                    equity: saturated(self.equity + saturated(gross - p.entry_fee - fee)),
                    total_fees: saturated(self.total_fees + fee),
                    trades: self.trades.push(
                        p.record(candle_ms(last), last.close, "end_of_data"@, cfg),
                    ),
                    open: None,
                    ..self
                }
            },
        }
    }
}

/// The simulation after the first `n` bars.
pub open spec fn replayed(bars: Seq<Bar>, n: int, cfg: BacktestConfig, set: SignalSettings) -> SimView
    decreases n,
{
    if n <= 0 {
        SimView::fresh(cfg)
    } else {
        replayed(bars, n - 1, cfg, set).after_bar(bars[n - 1], cfg, set)
    }
}

impl SimPosition {
    /// What the position manager says at the close of a bar. See
    /// [`SimPositionView::judged`].
    fn judge(&self, bar: &Bar, cfg: &BacktestConfig, equity: i128) -> (r: (
        PositionDecision,
        String,
        Position,
    ))
        requires
            self@.ok(),
            bar.ok(),
            cfg.ok(),
        ensures
            ({
                let j = self@.judged(*bar, *cfg);
                &&& r.0 == j.decision
                &&& r.1@ == j.reason
                &&& r.2 == j.position
                &&& r.2 is Long
                &&& r.2.ok()
            }),
    {
        let long: Position = Position::Long {
            entry_price: self.entry_price,
            qty: self.qty,
            initial_stop_price: self.stop_price,
            stop_price: self.stop_price,
            tp_price: self.tp_price,
            peak_price: self.peak_price,
            entry_time_ms: self.entry_time_ms,
            last_peak_time_ms: self.last_peak_time_ms,
            stop_order_id: None,
            exchange_stop_price: None,
        };
        let price: i128 = bar.candle.close;
        let factor: i128 = ONE + 2 * cfg.fee_rate + 2 * cfg.slippage_pct;
        if bar.reading.regime == Regime::Ranging && price >= bar.features.bb_mid20_5m
            && product_at_most(self.entry_price, factor, price, ONE) && bar.features.rsi14_5m
            >= 50 * ONE {
            return (
                PositionDecision::ExitLong,
                String::from_str("Mean reversion done. We take profit."),
                long,
            );
        }
        let mut st: BotState = BotState::new_on(equity, String::new());
        st.position = long;
        let (decision, reason) = st.manage_open_position(
            price,
            bar.features.atr14_5m,
            time_of(&bar.candle),
            bar.reading.bearish_bias,
        );
        (decision, reason, st.position)
    }

    /// The record of the position. See [`SimPositionView::record`].
    fn to_record(&self, exit_ms: u64, exit_price: i128, reason: &str, cfg: &BacktestConfig) -> (r:
        TradeRecord)
        requires
            self@.ok(),
            cfg.ok(),
            bounded(exit_price as int),
        ensures
            r@ == self@.record(exit_ms, exit_price, reason@, *cfg),
    {
        let mut rec: TradeRecord = TradeRecord::open(
            "BACKTEST",
            self.regime,
            self.strategy.as_str(),
            self.score,
            self.entry_time_ms,
            self.entry_price,
            self.qty,
            self.stop_price,
            self.tp_price,
            self.entry_fee,
            self.features,
        );
        let fee: i128 = mul_bounded(mul_bounded(self.qty, exit_price), cfg.fee_rate);
        rec.close(
            exit_ms,
            exit_price,
            reason,
            fee,
            Some(mul_bounded(self.mfe_price, self.qty)),
            Some(mul_bounded(self.mae_price, self.qty)),
        );
        rec
    }
}

impl Sim {
    /// A simulation before its first bar.
    pub fn new(cfg: &BacktestConfig) -> (s: Sim)
        requires
            cfg.ok(),
        ensures
            s@ == SimView::fresh(*cfg),
            s@.ok(),
    {
        let s: Sim = Sim {
            equity: cfg.starting_capital,
            peak_equity: cfg.starting_capital,
            total_fees: 0,
            total_slippage: 0,
            equity_curve: Vec::new(),
            drawdown_curve: Vec::new(),
            trades: Vec::new(),
            open: None,
        };
        assert(s@.trades =~= Seq::empty());
        s
    }

    fn push_trade(&mut self, rec: TradeRecord)
        ensures
            final(self)@ == (SimView { trades: old(self)@.trades.push(rec@), ..old(self)@ }),
    {
        self.trades.push(rec);
        assert(trade_views(self.trades@) =~= trade_views(old(self).trades@).push(rec@));
    }

    fn leave(
        &mut self,
        p: SimPosition,
        exit_price: i128,
        reason: &str,
        now_ms: u64,
        cfg: &BacktestConfig,
    )
        requires
            old(self)@.ok(),
            p@.ok(),
            cfg.ok(),
            bounded(exit_price as int),
        ensures
            final(self)@ == old(self)@.left(p@, exit_price, reason@, now_ms, *cfg),
            final(self)@.ok(),
    {
        let slip: i128 = mul_bounded(exit_price, cfg.slippage_pct);
        let exit_slip: i128 = mul_bounded(slip, p.qty);
        let exit_fee: i128 = mul_bounded(mul_bounded(p.qty, exit_price), cfg.fee_rate);
        let gross: i128 = mul_bounded(saturate(exit_price - slip) - p.entry_price, p.qty);
        let net: i128 = saturate(gross - p.entry_fee - exit_fee);
        let entry_slip: i128 = mul_bounded(mul_bounded(p.entry_price, cfg.slippage_pct), p.qty);
        let mut rec: TradeRecord = p.to_record(now_ms, exit_price, reason, cfg);
        rec.slippage_usdt = Some(saturate(exit_slip + entry_slip));
        self.push_trade(rec);
        self.total_fees = saturate(self.total_fees + exit_fee);
        self.total_slippage = saturate(self.total_slippage + exit_slip);
        self.equity = saturate(self.equity + net);
        if self.equity > self.peak_equity {
            self.peak_equity = self.equity;
        }
        self.open = None;
    }

    fn manage(&mut self, bar: &Bar, cfg: &BacktestConfig)
        requires
            old(self)@.ok(),
            bar.ok(),
            cfg.ok(),
        ensures
            final(self)@ == old(self)@.managed_in(*bar, *cfg),
            final(self)@.ok(),
    {
        let open: Option<SimPosition> = self.open.take();
        if let Some(p) = open {
            let ghost before = p@;
            let mut p: SimPosition = p;
            let (decision, reason, after) = p.judge(bar, cfg, self.equity);
            let now_ms: u64 = time_of(&bar.candle);
            let stop_hit: bool = bar.candle.low <= p.stop_price;
            let mut exit_price: i128 = bar.candle.close;
            let mut why: String = reason;
            let mut leaves: bool = decision == PositionDecision::ExitLong;
            if stop_hit {
                exit_price = p.stop_price;
                why = String::from_str("stop_hit");
                leaves = true;
            } else if let Some(tp) = p.tp_price {
                if bar.candle.high >= tp {
                    exit_price = tp;
                    why = String::from_str("tp_hit");
                    leaves = true;
                }
            }
            let gain: i128 = max_fixed(saturate(bar.candle.high - p.entry_price), 0);
            let loss: i128 = max_fixed(saturate(p.entry_price - bar.candle.low), 0);
            p.mfe_price = max_fixed(gain, p.mfe_price);
            p.mae_price = max_fixed(loss, p.mae_price);
            if let Position::Long { stop_price, peak_price, last_peak_time_ms, .. } = after {
                p.stop_price = stop_price;
                p.peak_price = peak_price;
                p.last_peak_time_ms = last_peak_time_ms;
            }
            assert(p@ == before.watched(*bar, *cfg));
            assert(self@ == (SimView { open: None, ..old(self)@ }));
            if leaves {
                self.leave(p, exit_price, why.as_str(), now_ms, cfg);
            } else {
                self.open = Some(p);
            }
        }
    }

    fn sample(&mut self, now_ms: u64)
        requires
            old(self)@.ok(),
        ensures
            final(self)@ == old(self)@.sampled(now_ms),
            final(self)@.ok(),
    {
        let dd: i128 = if self.peak_equity > 0 {
            saturate(100 * div_bounded(self.peak_equity - self.equity, self.peak_equity))
        } else {
            0
        };
        self.equity_curve.push(CurvePoint { time_ms: now_ms, value: self.equity });
        self.drawdown_curve.push(CurvePoint { time_ms: now_ms, value: dd });
    }

    /// The quantity of an entry. See [`SimView::entry_qty`].
    fn entry_qty(&self, price: i128, stop: i128, cfg: &BacktestConfig) -> (q: i128)
        requires
            self@.ok(),
            cfg.ok(),
            bounded(price as int),
            bounded(stop as int),
        ensures
            q == self@.entry_qty(price as int, stop as int, *cfg),
            bounded(q as int),
    {
        let risk: i128 = min_fixed(
            mul_bounded(self.equity, cfg.risk_fraction),
            cfg.max_risk_usdt,
        );
        let raw: i128 = div_bounded(risk, max_fixed(price - stop, 1));
        let cap: i128 = max_fixed(mul_bounded(self.equity, cfg.max_notional_fraction), 0);
        if cap > 0 && price > 0 && !product_at_most(raw, price, cap, ONE) {
            div_bounded(cap, price)
        } else {
            raw
        }
    }

    fn signal_at(bar: &Bar, set: &SignalSettings) -> (sig: Signal)
        requires
            bar.ok(),
        ensures
            sig@ == SimView::signal(*bar, *set),
            sig.action == Action::EnterLong ==> sig.stop_price is Some,
    {
        reveal(SimView::signal);
        proof {
            law_entries_are_ranked(
                bar.reading.regime,
                bar.features,
                bar.candle.close as int,
                bar.reading.vol_ratio as int,
                bar.reading.vol_squeeze,
                bar.reading.htf_bullish,
                bar.reading.bearish_bias,
                *set,
            );
        }
        entry_long_signal(
            bar.reading.regime,
            &bar.features,
            bar.candle.close,
            bar.reading.vol_ratio,
            bar.reading.vol_squeeze,
            bar.reading.htf_bullish,
            bar.reading.bearish_bias,
            set,
        )
    }

    fn enter(&mut self, bar: &Bar, cfg: &BacktestConfig, set: &SignalSettings)
        requires
            old(self)@.ok(),
            bar.ok(),
            cfg.ok(),
        ensures
            final(self)@ == old(self)@.entered_in(*bar, *cfg, *set),
            final(self)@.ok(),
    {
        let sig: Signal = Sim::signal_at(bar, set);
        if sig.action != Action::EnterLong {
            return;
        }
        let stop: i128 = match sig.stop_price {
            Some(p) => saturate(p),
            None => return,
        };
        let price: i128 = bar.candle.close;
        let qty: i128 = self.entry_qty(price, stop, cfg);
        if qty <= 0 || !product_at_least(price, qty, 5 * ONE) {
            return;
        }
        let slip: i128 = mul_bounded(price, cfg.slippage_pct);
        let entry: i128 = saturate(price + slip);
        let fee: i128 = mul_bounded(mul_bounded(qty, entry), cfg.fee_rate);
        let now_ms: u64 = time_of(&bar.candle);
        self.total_fees = saturate(self.total_fees + fee);
        self.total_slippage = saturate(self.total_slippage + mul_bounded(slip, qty));
        self.open = Some(
            SimPosition {
                regime: bar.reading.regime,
                strategy: sig.strategy,
                score: sig.score,
                entry_time_ms: now_ms,
                entry_price: entry,
                qty,
                stop_price: stop,
                tp_price: Some(saturate(price + 3 * (price - stop))),
                peak_price: entry,
                last_peak_time_ms: now_ms,
                entry_fee: fee,
                features: bar.snapshot,
                mfe_price: 0,
                mae_price: 0,
            },
        );
    }

    /// Plays one bar: the open position is managed, the curves get a point, and a
    /// flat simulation may enter.
    pub fn step(&mut self, bar: &Bar, cfg: &BacktestConfig, set: &SignalSettings)
        requires
            old(self)@.ok(),
            bar.ok(),
            cfg.ok(),
        ensures
            final(self)@ == old(self)@.after_bar(*bar, *cfg, *set),
            final(self)@.ok(),
    {
        self.manage(bar, cfg);
        self.sample(time_of(&bar.candle));
        if self.open.is_none() {
            self.enter(bar, cfg, set);
        }
    }

    /// Leaves a position that is still open at the last close.
    pub fn finish(&mut self, last: &Candle, cfg: &BacktestConfig)
        requires
            old(self)@.ok(),
            cfg.ok(),
            bounded(last.close as int),
        ensures
            final(self)@ == old(self)@.finished(*last, *cfg),
            final(self)@.ok(),
    {
        let open: Option<SimPosition> = self.open.take();
        if let Some(p) = open {
            let fee: i128 = mul_bounded(mul_bounded(p.qty, last.close), cfg.fee_rate);
            let gross: i128 = mul_bounded(last.close - p.entry_price, p.qty);
            let net: i128 = saturate(gross - p.entry_fee - fee);
            let rec: TradeRecord = p.to_record(time_of(last), last.close, "end_of_data", cfg);
            self.push_trade(rec);
            self.equity = saturate(self.equity + net);
            self.total_fees = saturate(self.total_fees + fee);
        }
    }
}

/// Replays a history and returns the finished simulation.
pub fn simulate(
    bars: &Vec<Bar>,
    last: &Candle,
    cfg: &BacktestConfig,
    set: &SignalSettings,
) -> (s: Sim)
    requires
        forall|i: int| 0 <= i < bars@.len() ==> (#[trigger] bars@[i]).ok(),
        bounded(last.close as int),
        cfg.ok(),
    ensures
        s@ == replayed(bars@, bars@.len() as int, *cfg, *set).finished(*last, *cfg),
        s@.ok(),
{
    let mut s: Sim = Sim::new(cfg);
    let mut i: usize = 0;
    while i < bars.len()
        invariant
            i <= bars@.len(),
            forall|k: int| 0 <= k < bars@.len() ==> (#[trigger] bars@[k]).ok(),
            cfg.ok(),
            s@ == replayed(bars@, i as int, *cfg, *set),
            s@.ok(),
        decreases bars@.len() - i,
    {
        assert(bars@[i as int].ok());
        s.step(&bars[i], cfg, set);
        i += 1;
    }
    s.finish(last, cfg);
    s
}

/// The curves have one point for each bar, in the order of the bars and at their
/// times, and the equity is never over its peak, so that no drawdown is negative.
pub proof fn law_curves_follow_the_bars(
    bars: Seq<Bar>,
    n: int,
    cfg: BacktestConfig,
    set: SignalSettings,
)
    requires
        0 <= n <= bars.len(),
    ensures
        ({
            let v = replayed(bars, n, cfg, set);
            &&& v.equity_curve.len() == n
            &&& v.drawdown_curve.len() == n
            &&& v.equity <= v.peak_equity
            &&& forall|i: int|
                0 <= i < n ==> (#[trigger] v.equity_curve[i]).time_ms == candle_ms(bars[i].candle)
            &&& forall|i: int|
                0 <= i < n ==> (#[trigger] v.drawdown_curve[i]).time_ms == candle_ms(bars[i].candle)
            &&& forall|i: int| 0 <= i < n ==> (#[trigger] v.drawdown_curve[i]).value >= 0
        }),
    decreases n,
{
    if n > 0 {
        law_curves_follow_the_bars(bars, n - 1, cfg, set);
        let v = replayed(bars, n, cfg, set);
        let m = replayed(bars, n - 1, cfg, set).managed_in(bars[n - 1], cfg);
        assert(m.equity <= m.peak_equity);
        assert(m.drawdown_pct() >= 0) by {
            if m.peak_equity > 0 {
                lemma_round_div_exact(0, m.peak_equity);
                lemma_round_div_monotone(0, (m.peak_equity - m.equity) * ONE, m.peak_equity);
            }
        }
        assert(v.drawdown_curve.last().value == m.drawdown_pct());
    }
}

/// What later bars bring does not change what was simulated before: the replay of
/// a prefix depends on that prefix alone.
pub proof fn law_no_bar_looks_ahead(
    bars: Seq<Bar>,
    others: Seq<Bar>,
    n: int,
    cfg: BacktestConfig,
    set: SignalSettings,
)
    requires
        0 <= n <= bars.len(),
        n <= others.len(),
        forall|i: int| 0 <= i < n ==> bars[i] == #[trigger] others[i],
    ensures
        replayed(bars, n, cfg, set) == replayed(others, n, cfg, set),
    decreases n,
{
    if n > 0 {
        law_no_bar_looks_ahead(bars, others, n - 1, cfg, set);
        assert(bars[n - 1] == others[n - 1]);
    }
}

/// Trades are only added: those of a prefix of the bars are the first trades of
/// the whole.
pub proof fn law_trades_are_only_added(
    bars: Seq<Bar>,
    n: int,
    m: int,
    cfg: BacktestConfig,
    set: SignalSettings,
)
    requires
        0 <= n <= m <= bars.len(),
    ensures
        ({
            let early = replayed(bars, n, cfg, set).trades;
            let late = replayed(bars, m, cfg, set).trades;
            &&& early.len() <= late.len()
            &&& late.take(early.len() as int) == early
        }),
    decreases m - n,
{
    let early = replayed(bars, n, cfg, set).trades;
    if n == m {
        assert(early.take(early.len() as int) =~= early);
    } else {
        law_trades_are_only_added(bars, n, m - 1, cfg, set);
        let mid = replayed(bars, m - 1, cfg, set).trades;
        let late = replayed(bars, m, cfg, set).trades;
        assert(late.take(early.len() as int) =~= mid.take(early.len() as int));
    }
}

/// A trade that a later bar adds is left at the time of that bar.
pub proof fn law_later_trades_end_later(
    bars: Seq<Bar>,
    n: int,
    m: int,
    cfg: BacktestConfig,
    set: SignalSettings,
    i: int,
)
    requires
        0 <= n <= m <= bars.len(),
        replayed(bars, n, cfg, set).trades.len() <= i < replayed(bars, m, cfg, set).trades.len(),
    ensures
        exists|k: int|
            n <= k < m && replayed(bars, m, cfg, set).trades[i].exit_time_ms == Some(
                candle_ms((#[trigger] bars[k]).candle),
            ),
    decreases m - n,
{
    if n < m {
        let mid = replayed(bars, m - 1, cfg, set).trades;
        if i < mid.len() {
            law_later_trades_end_later(bars, n, m - 1, cfg, set, i);
            let k = choose|k: int|
                n <= k < m - 1 && mid[i].exit_time_ms == Some(
                    candle_ms((#[trigger] bars[k]).candle),
                );
            assert(replayed(bars, m, cfg, set).trades[i] == mid[i]);
            assert(n <= k < m && bars[k] == bars[k]);
        } else {
            assert(bars[m - 1] == bars[m - 1]);
        }
    }
}

/// The slippage of leaving a trade, as it is charged to the account.
pub open spec fn exit_slippage(t: TradeView, cfg: BacktestConfig) -> int {
    times(times(t.exit_price->0 as int, cfg.slippage_pct as int), t.qty as int)
}

/// What a closed trade adds to the account: the gain at the price that the slippage made
/// worse, less both fees.
pub open spec fn booked(t: TradeView, cfg: BacktestConfig) -> int {
    let slip = times(t.exit_price->0 as int, cfg.slippage_pct as int);
    saturated(
        times(saturated(t.exit_price->0 - slip) - t.entry_price, t.qty as int)
            - t.entry_fee_usdt->0 - t.exit_fee_usdt->0,
    )
}

/// The account after the first `n` trades.
pub open spec fn ledger(start: int, trades: Seq<TradeView>, cfg: BacktestConfig, n: int) -> int
    decreases n,
{
    if n <= 0 {
        start
    } else {
        saturated(ledger(start, trades, cfg, n - 1) + booked(trades[n - 1], cfg))
    }
}

/// The account depends on the trades that it counts alone.
proof fn lemma_ledger_prefix(
    start: int,
    a: Seq<TradeView>,
    b: Seq<TradeView>,
    cfg: BacktestConfig,
    n: int,
)
    requires
        0 <= n <= a.len(),
        n <= b.len(),
        forall|i: int| 0 <= i < n ==> a[i] == #[trigger] b[i],
    ensures
        ledger(start, a, cfg, n) == ledger(start, b, cfg, n),
    decreases n,
{
    if n > 0 {
        lemma_ledger_prefix(start, a, b, cfg, n - 1);
        assert(a[n - 1] == b[n - 1]);
    }
}

/// The books balance: the equity is the starting capital and what each closed trade
/// added to it. At the end of the data a position that is still open adds its net
/// result.
pub proof fn law_books_balance(
    bars: Seq<Bar>,
    n: int,
    last: Candle,
    cfg: BacktestConfig,
    set: SignalSettings,
)
    requires
        0 <= n <= bars.len(),
    ensures
        ({
            let v = replayed(bars, n, cfg, set);
            let end = v.finished(last, cfg);
            &&& v.equity == ledger(cfg.starting_capital as int, v.trades, cfg, v.trades.len() as int)
            &&& (v.open is None ==> end.equity == v.equity)
            &&& (v.open is Some ==> end.equity == saturated(
                v.equity + end.trades.last().net_pnl_usdt->0,
            ))
        }),
    decreases n,
{
    let v = replayed(bars, n, cfg, set);
    if n > 0 {
        law_books_balance(bars, n - 1, last, cfg, set);
        let before = replayed(bars, n - 1, cfg, set);
        let m = before.managed_in(bars[n - 1], cfg);
        let start = cfg.starting_capital as int;
        let k = before.trades.len() as int;
        assert(v.equity == m.equity && v.trades == m.trades);
        if m.trades.len() > k {
            lemma_ledger_prefix(start, before.trades, m.trades, cfg, k);
        }
    }
}

/// Whether the amounts of a trade are inside the range of the arithmetic, so that none
/// of them is cut off.
pub open spec fn roomy(t: TradeView, cfg: BacktestConfig) -> bool {
    let exit = t.exit_price->0 as int;
    let q = t.qty as int;
    let slip = times(exit, cfg.slippage_pct as int);
    &&& -LIMIT <= exit - slip <= LIMIT
    &&& -LIMIT < product(exit - t.entry_price, q) < LIMIT
    &&& -LIMIT < product(slip, q) < LIMIT
    &&& -LIMIT < product(exit - slip - t.entry_price, q) < LIMIT
    &&& -LIMIT < t.net_pnl_usdt->0 < LIMIT
    &&& -LIMIT < booked(t, cfg) < LIMIT
}

/// Whether the net result of a trade is the gain at its exit price, less both fees.
pub open spec fn nets_out(t: TradeView) -> bool {
    t.net_pnl_usdt->0 == saturated(
        times(t.exit_price->0 - t.entry_price, t.qty as int) - t.entry_fee_usdt->0
            - t.exit_fee_usdt->0,
    )
}

/// A closed trade adds its net result less its exit slippage, to one step of `10^-12`.
pub proof fn law_booked_is_net_less_slippage(t: TradeView, cfg: BacktestConfig)
    requires
        roomy(t, cfg),
        nets_out(t),
    ensures
        -1 <= booked(t, cfg) - (t.net_pnl_usdt->0 - exit_slippage(t, cfg)) <= 1,
{
    let exit = t.exit_price->0 as int;
    let q = t.qty as int;
    let slip = times(exit, cfg.slippage_pct as int);
    let a = exit - t.entry_price;
    lemma_round_div_error(a * q, ONE as int);
    lemma_round_div_error(slip * q, ONE as int);
    lemma_round_div_error((a - slip) * q, ONE as int);
    assert((a - slip) * q == a * q - slip * q) by (nonlinear_arith);
}

/// The starting capital, and the net result less the exit slippage of each of the first
/// `n` trades.
pub open spec fn net_sum(start: int, trades: Seq<TradeView>, cfg: BacktestConfig, n: int) -> int
    decreases n,
{
    if n <= 0 {
        start
    } else {
        net_sum(start, trades, cfg, n - 1) + trades[n - 1].net_pnl_usdt->0 - exit_slippage(
            trades[n - 1],
            cfg,
        )
    }
}

/// The account is the starting capital and all net results less the exit slippage, to one
/// step of `10^-12` for each trade, as long as it stays inside the range of the
/// arithmetic.
pub proof fn law_ledger_is_the_net_results(
    start: int,
    trades: Seq<TradeView>,
    cfg: BacktestConfig,
    n: int,
)
    requires
        0 <= n <= trades.len(),
        forall|i: int| 0 <= i < n ==> roomy(#[trigger] trades[i], cfg) && nets_out(trades[i]),
        forall|i: int|
            0 <= i <= n ==> -LIMIT + i <= #[trigger] net_sum(start, trades, cfg, i) <= LIMIT - i,
    ensures
        -n <= ledger(start, trades, cfg, n) - net_sum(start, trades, cfg, n) <= n,
    decreases n,
{
    if n > 0 {
        law_ledger_is_the_net_results(start, trades, cfg, n - 1);
        law_booked_is_net_less_slippage(trades[n - 1], cfg);
        assert(-LIMIT + n <= net_sum(start, trades, cfg, n) <= LIMIT - n);
    }
}

/// The simulated trades net out.
pub proof fn law_trades_net_out(
    bars: Seq<Bar>,
    n: int,
    cfg: BacktestConfig,
    set: SignalSettings,
    i: int,
)
    requires
        0 <= n <= bars.len(),
        0 <= i < replayed(bars, n, cfg, set).trades.len(),
    ensures
        nets_out(replayed(bars, n, cfg, set).trades[i]),
    decreases n,
{
    if n > 0 {
        if i < replayed(bars, n - 1, cfg, set).trades.len() {
            law_trades_net_out(bars, n - 1, cfg, set, i);
        }
    }
}

/// The simulated equity is the starting capital and all net results less the exit
/// slippage, to one step of `10^-12` for each trade, as long as it stays inside the range
/// of the arithmetic.
pub proof fn law_equity_is_the_net_results(
    bars: Seq<Bar>,
    n: int,
    cfg: BacktestConfig,
    set: SignalSettings,
)
    requires
        0 <= n <= bars.len(),
        ({
            let t = replayed(bars, n, cfg, set).trades;
            &&& forall|i: int| 0 <= i < t.len() ==> roomy(#[trigger] t[i], cfg)
            &&& forall|i: int|
                0 <= i <= t.len() ==> -LIMIT + i <= #[trigger] net_sum(
                    cfg.starting_capital as int,
                    t,
                    cfg,
                    i,
                ) <= LIMIT - i
        }),
    ensures
        ({
            let v = replayed(bars, n, cfg, set);
            let k = v.trades.len() as int;
            -k <= v.equity - net_sum(cfg.starting_capital as int, v.trades, cfg, k) <= k
        }),
{
    let v = replayed(bars, n, cfg, set);
    let k = v.trades.len() as int;
    law_books_balance(bars, n, bars[0].candle, cfg, set);
    assert forall|i: int| 0 <= i < k implies roomy(#[trigger] v.trades[i], cfg) && nets_out(
        v.trades[i],
    ) by {
        law_trades_net_out(bars, n, cfg, set, i);
    }
    law_ledger_is_the_net_results(cfg.starting_capital as int, v.trades, cfg, k);
}

/// The simulated position is never worth more than the cap, but for the rounding
/// of the quantity to half a step.
pub proof fn law_position_is_capped(v: SimView, price: int, stop: int, cfg: BacktestConfig)
    requires
        price > 0,
        times(v.equity, cfg.max_notional_fraction as int) > 0,
    ensures
        ({
            let cap = times(v.equity, cfg.max_notional_fraction as int);
            let qty = v.entry_qty(price, stop, cfg);
            2 * (qty * price) <= 2 * (cap * ONE) + price
        }),
{
    let cap = times(v.equity, cfg.max_notional_fraction as int);
    let qty = v.entry_qty(price, stop, cfg);
    let exact = quotient(cap, price);
    lemma_round_div_error(cap * ONE, price);
    if qty == saturated(exact) {
        lemma_round_div_exact(0, price);
        lemma_round_div_monotone(0, cap * ONE, price);
        assert(qty * price <= exact * price) by (nonlinear_arith)
            requires
                qty <= exact,
                price > 0,
        ;
    }
}

/// A bar opens at most one position, so there are no more trades than bars.
pub proof fn law_one_entry_per_bar(
    bars: Seq<Bar>,
    n: int,
    last: Candle,
    cfg: BacktestConfig,
    set: SignalSettings,
)
    requires
        n >= 0,
    ensures
        replayed(bars, n, cfg, set).trades.len() + (if replayed(bars, n, cfg, set).open is Some {
            1int
        } else {
            0
        }) <= n,
        replayed(bars, n, cfg, set).finished(last, cfg).trades.len() <= n,
    decreases n,
{
    if n > 0 {
        law_one_entry_per_bar(bars, n - 1, last, cfg, set);
        reveal(SimView::signal);
    }
}

/// The simulation leaves a position exactly where the bot would: on the same position,
/// price, features and costs both come to the same decision, for the same reason. The
/// bot's costs are in hundredths of a percent.
pub proof fn law_simulation_judges_as_the_bot_does(
    p: SimPositionView,
    bar: Bar,
    cfg: BacktestConfig,
    t: TickView,
)
    requires
        t.state.position == p.as_long(),
        t.base.market.price == bar.candle.close,
        t.base.market.now_ms == candle_ms(bar.candle),
        t.base.features == bar.features,
        t.base.reading == bar.reading,
        t.base.set.taker_fee_bps == 10_000 * cfg.fee_rate,
        t.base.set.slippage_bps == 10_000 * cfg.slippage_pct,
    ensures
        p.judged(bar, cfg).decision == t.judged().decision,
        p.judged(bar, cfg).reason == t.judged().reason,
        p.judged(bar, cfg).position == t.judged().position,
{
    let costs = 2 * cfg.fee_rate + 2 * cfg.slippage_pct;
    let entry = p.entry_price as int;
    assert(2 * (t.base.set.taker_fee_bps + t.base.set.slippage_bps) == costs * 10_000);
    assert(entry * (10_000 * ONE + costs * 10_000) == 10_000 * (entry * (ONE + costs)))
        by (nonlinear_arith);
}

} // verus!
