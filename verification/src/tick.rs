//! One run of the bot as a state machine.
//!
//! A [`Tick`] holds what the run knows. Each step takes the outcome of the last
//! outside action as an [`Event`] and answers with a [`Step`]: whether the state
//! has to be saved, what to record, and which outside action comes next. The
//! caller performs the action and hands its outcome back, until the step asks to
//! finish.
use crate::account::SpotBalances;
use crate::binance_orders::{
    average_price, fees_of, fee_usdt_from_trades, is_latest_stop, is_working_stop, latest_stop,
    MyTrade, OpenOrder, OrderState,
};
use crate::execution::{endpoint_of, Endpoint, Mode};
use crate::features::Features;
use crate::fixed::{
    bounded, div_round, lemma_round_div_bounds, lemma_round_div_exact, lemma_round_div_monotone,
    max_fixed, max_of, min_fixed, min_of, mul_fixed,
    none_or_within, product_at_most, product, round_div, saturate, saturated, wide, within, LIMIT, ONE,
};
use crate::money::{plain_string, plain_text};
use crate::numeral::{fixed_value, parse_fixed};
use crate::regime::Regime;
use crate::risk::{
    entry_decision, over_cap, size_entry_long, sound_trade, RiskDecision, RiskView,
};
use crate::signals::{
    entry_long_signal, entry_signal, law_entries_are_ranked, Action, Signal, SignalSettings,
};
use crate::sizing::{below_minimum, ensure_min_notional, round_down_to_step, step_down};
use crate::state::{
    managed, opened, usable, with_exchange_stop, with_stop_order, without_stop_order, BotState,
    Managed, Position, PositionDecision,
};
use crate::text::{contains, contains_text, fixed_string, fixed_text, nat_text, u64_string};
use vstd::prelude::*;

verus! {

/// What one run decided.
#[derive(Clone, Copy, Debug, PartialEq, Eq, Structural)]
pub enum Decision {
    Wait,
    Stop,
    Sell,
    SellFailed,
    EnterLong,
    ExitLong,
    HoldLong,
    BlockEntry,
    Hibernate,
}

/// The name of a decision.
pub open spec fn decision_text(d: Decision) -> Seq<char> {
    match d {
        Decision::Wait => "WAIT"@,
        Decision::Stop => "STOP"@,
        Decision::Sell => "SELL"@,
        Decision::SellFailed => "SELL_FAILED"@,
        Decision::EnterLong => "ENTER_LONG"@,
        Decision::ExitLong => "EXIT_LONG"@,
        Decision::HoldLong => "HOLD_LONG"@,
        Decision::BlockEntry => "BLOCK_ENTRY"@,
        Decision::Hibernate => "HIBERNATE"@,
    }
}

impl Decision {
    /// The name of the decision.
    pub fn name(self) -> (s: &'static str)
        ensures
            s@ == decision_text(self),
    {
        match self {
            Decision::Wait => "WAIT",
            Decision::Stop => "STOP",
            Decision::Sell => "SELL",
            Decision::SellFailed => "SELL_FAILED",
            Decision::EnterLong => "ENTER_LONG",
            Decision::ExitLong => "EXIT_LONG",
            Decision::HoldLong => "HOLD_LONG",
            Decision::BlockEntry => "BLOCK_ENTRY",
            Decision::Hibernate => "HIBERNATE",
        }
    }
}

/// What the operator and the account's history set for a run.
#[derive(Clone, Copy, Debug, PartialEq, Eq, Structural)]
pub struct TickSettings {
    pub mode: Mode,
    /// Whether coins that the bot did not buy may be taken over.
    pub allow_external: bool,
    /// Whether such coins are sold at once.
    pub panic_flatten: bool,
    /// The largest share of the equity that one trade may be worth.
    pub max_notional_fraction: i128,
    /// The largest worth of one trade.
    pub max_notional_usdt: Option<i128>,
    pub taker_fee_bps: i128,
    pub slippage_bps: i128,
    pub max_trades_per_day: u32,
    pub risk_multiplier: i128,
    pub signals: SignalSettings,
}

impl TickSettings {
    /// Every setting is within the range of the arithmetic.
    pub open spec fn ok(self) -> bool {
        &&& bounded(self.max_notional_fraction as int)
        &&& self.max_notional_usdt is Some ==> bounded(self.max_notional_usdt->0 as int)
        &&& bounded(self.taker_fee_bps as int)
        &&& bounded(self.slippage_bps as int)
        &&& bounded(self.risk_multiplier as int)
    }
}

/// The market at the time of a run.
#[derive(Clone, Copy, Debug, PartialEq, Eq, Structural)]
pub struct Market {
    pub price: i128,
    pub step_size: i128,
    pub tick_size: i128,
    pub min_notional: i128,
    pub stale_any: bool,
    pub lag_5m_ms: u64,
    pub lag_1h_ms: u64,
    pub now_ms: u64,
}

/// A day in milliseconds.
pub const DAY_MS: u64 = 86_400_000;

impl Market {
    /// Prices are within the range of the arithmetic, and the clock leaves room
    /// for a day.
    pub open spec fn ok(self) -> bool {
        &&& bounded(self.price as int)
        &&& bounded(self.step_size as int)
        &&& bounded(self.tick_size as int)
        &&& bounded(self.min_notional as int)
        &&& self.now_ms + DAY_MS <= u64::MAX
    }
}

/// What the regime detector found.
#[derive(Clone, Copy, Debug, PartialEq, Eq, Structural)]
pub struct Reading {
    pub regime: Regime,
    pub vol_ratio: i128,
    pub vol_squeeze: bool,
    pub htf_bullish: bool,
    pub bearish_bias: bool,
}

/// What does not change during a run.
#[derive(Clone, Copy, Debug, PartialEq, Eq, Structural)]
pub struct TickBase {
    pub set: TickSettings,
    pub market: Market,
    pub wallet: SpotBalances,
    pub features: Features,
    pub reading: Reading,
}

impl TickBase {
    /// Everything is within the range of the arithmetic.
    pub open spec fn ok(self) -> bool {
        &&& self.set.ok()
        &&& self.market.ok()
        &&& self.wallet.ok()
        &&& self.features.ok()
    }

    /// Whether everything is within the range of the arithmetic.
    pub fn in_range(&self) -> (r: bool)
        ensures
            r == self.ok(),
    {
        let set: &TickSettings = &self.set;
        let m: &Market = &self.market;
        let w: &SpotBalances = &self.wallet;
        within(set.max_notional_fraction) && none_or_within(set.max_notional_usdt) && within(
            set.taker_fee_bps,
        ) && within(set.slippage_bps) && within(set.risk_multiplier) && within(m.price) && within(
            m.step_size,
        ) && within(m.tick_size) && within(m.min_notional) && m.now_ms <= u64::MAX - DAY_MS
            && within(w.usdt_free) && within(w.usdt_locked) && within(w.btc_free) && within(
            w.btc_locked,
        ) && self.features.in_range()
    }
}

/// What the run is waiting for.
#[derive(Clone, Copy, Debug, PartialEq, Eq, Structural)]
pub enum Phase {
    /// Nothing was done yet.
    Start,
    /// The report on a buy of an earlier run.
    PendingStatus { order_id: u64 },
    /// The cancellation of a stop that protects nothing any more.
    OrphanCancel,
    /// The sale of coins that the bot did not buy.
    EmergencySell,
    /// A buy.
    Buying { qty: i128, stop: i128 },
    /// The report on the buy.
    BuyStatus { order_id: u64, qty: i128, stop: i128 },
    /// The fills of the buy.
    BuyTrades { entry_price: i128, qty: i128, stop: i128 },
    /// The stop that protects the new position.
    EntryStop { qty: i128, stop: i128 },
    /// The sale of a position that could not be protected.
    PanicSell,
    /// The report on the position's stop.
    StopStatus,
    /// The cancellation of the stop before the position is sold.
    ExitCancel { sell_qty: i128 },
    /// The sale of the position.
    ExitSell,
    /// The report on the sale.
    ExitStatus { order_id: u64 },
    /// The fills of the sale.
    ExitTrades { avg_sell: i128, exec_qty: i128 },
    /// The open orders, among which there may be a stop.
    StopSearch { existing: Option<i128> },
    /// The cancellation of a stop that is to be replaced.
    StopCancel { protect_qty: i128, stop: i128 },
    /// A new stop for the position.
    StopPlace { stop: i128 },
    /// Nothing any more.
    Finished,
}

impl Phase {
    /// Every amount of the phase is within the range of the arithmetic.
    pub open spec fn ok(self) -> bool {
        match self {
            Phase::Buying { qty, stop } => bounded(qty as int) && bounded(stop as int),
            Phase::BuyStatus { qty, stop, .. } => bounded(qty as int) && bounded(stop as int),
            Phase::BuyTrades { entry_price, qty, stop } => bounded(entry_price as int) && bounded(
                qty as int,
            ) && bounded(stop as int),
            Phase::EntryStop { qty, stop } => bounded(qty as int) && bounded(stop as int),
            Phase::ExitTrades { avg_sell, exec_qty } => bounded(avg_sell as int) && bounded(
                exec_qty as int,
            ),
            Phase::StopSearch { existing } => existing is Some ==> bounded(existing->0 as int),
            Phase::StopCancel { stop, .. } => bounded(stop as int),
            Phase::StopPlace { stop } => bounded(stop as int),
            _ => true,
        }
    }
}

/// An outside action.
#[derive(Clone, Copy, Debug, PartialEq, Eq, Structural)]
pub enum Request {
    CancelOrder { order_id: u64 },
    BuyMarket { qty: i128 },
    SellMarket { qty: i128 },
    QueryOrder { order_id: u64 },
    QueryTrades { order_id: u64 },
    PlaceStop { qty: i128, stop_price: i128, limit_price: i128 },
    ListOpenOrders,
    /// The run is over; its outcome stands.
    Finish,
    /// The run is over, but for the closing of the books.
    WrapUp,
    /// The run failed: the error of the last action is its result.
    Fail,
}

/// A trade event to record.
#[derive(Clone, Copy, Debug, PartialEq, Eq, Structural)]
pub enum Note {
    Nothing,
    /// A buy was sized, with the stop that it is to get and the cap that it was held
    /// to.
    Sized { qty: i128, notional: i128, stop: i128, cap: i128, was_capped: bool },
    /// The position is to be sold, for the reason that the run holds.
    Leaving { qty: i128, entry_price: i128 },
    /// A position was opened.
    Entered,
    /// A position was closed, for the reason that the run holds.
    Exited { entry_time_ms: u64, entry_price: i128, exit_price: i128, qty: i128 },
}

/// Something that the operator has to hear of.
#[derive(Clone, Copy, Debug, PartialEq, Eq, Structural)]
pub enum Alert {
    Nothing,
    /// A position could not be protected and was sold.
    PanicFlattened,
    /// A position could not be protected, and could not be sold either.
    PanicFlattenFailed,
}

/// The answer to an event.
#[derive(Clone, Copy, Debug, PartialEq, Eq, Structural)]
pub struct Step {
    /// Whether the state has to be saved before the request.
    pub save: bool,
    pub note: Note,
    pub alert: Alert,
    pub request: Request,
}

/// What became of an order that was sent.
#[derive(Clone, Copy, Debug, PartialEq, Eq, Structural)]
pub enum OrderResult {
    Accepted { order_id: Option<u64> },
    Failed,
}

/// What became of a cancellation.
#[derive(Clone, Copy, Debug, PartialEq, Eq, Structural)]
pub enum CancelResult {
    Done,
    /// The exchange does not know the order.
    Unknown,
    Failed,
}

/// What the exchange reports of an order, in numbers. A quantity or price of
/// `None` is no number.
#[derive(Clone, Copy, Debug, PartialEq, Eq, Structural)]
pub struct OrderFacts {
    pub state: OrderState,
    pub executed: Option<i128>,
    pub quote: Option<i128>,
    pub stop: Option<i128>,
}

impl OrderFacts {
    /// Every number is within the range of the arithmetic.
    pub open spec fn ok(self) -> bool {
        &&& self.executed is Some ==> bounded(self.executed->0 as int)
        &&& self.quote is Some ==> bounded(self.quote->0 as int)
        &&& self.stop is Some ==> bounded(self.stop->0 as int)
    }
}

/// The outcome of an outside action.
pub enum Event {
    Canceled { result: CancelResult },
    Sold { result: OrderResult },
    Bought { result: OrderResult },
    /// The report on an order, `None` where none was to be had.
    OrderInfo { facts: Option<OrderFacts> },
    /// The fills of an order, none where they were not to be had.
    Trades { trades: Vec<MyTrade> },
    StopPlaced { result: OrderResult },
    /// The open orders, `None` where they were not to be had.
    OpenOrders { orders: Option<Vec<OpenOrder>> },
}

impl Event {
    /// Every number is within the range of the arithmetic.
    pub open spec fn ok(self) -> bool {
        match self {
            Event::OrderInfo { facts } => facts is Some ==> facts->0.ok(),
            _ => true,
        }
    }
}

/// One run of the bot.
pub struct Tick {
    pub base: TickBase,
    pub state: BotState,
    pub phase: Phase,
    pub did_place_order: bool,
    pub decision: Decision,
    pub reason: String,
    /// Why a trade was planned or a position was left.
    pub why: String,
}

/// The content of a [`Tick`].
pub struct TickView {
    pub base: TickBase,
    pub state: BotState,
    pub phase: Phase,
    pub did_place_order: bool,
    pub decision: Decision,
    pub reason: Seq<char>,
    pub why: Seq<char>,
}

impl View for Tick {
    type V = TickView;

    open spec fn view(&self) -> TickView {
        TickView {
            base: self.base,
            state: self.state,
            phase: self.phase,
            did_place_order: self.did_place_order,
            decision: self.decision,
            reason: self.reason@,
            why: self.why@,
        }
    }
}

/// A step that only asks for an action.
pub open spec fn asks(save: bool, request: Request) -> Step {
    Step { save, note: Note::Nothing, alert: Alert::Nothing, request }
}

fn ask(save: bool, request: Request) -> (s: Step)
    ensures
        s == asks(save, request),
{
    Step { save, note: Note::Nothing, alert: Alert::Nothing, request }
}

/// The same, with something to record.
pub open spec fn noted(r: (TickView, Step), note: Note) -> (TickView, Step) {
    (r.0, Step { note, ..r.1 })
}

/// Whether the size that a note tells of, if it tells of one, buys something that is
/// worth no more than a positive cap.
pub open spec fn keeps_to_cap(note: Note) -> bool {
    match note {
        Note::Sized { qty, notional, cap, .. } => qty > 0 && (cap > 0 ==> notional <= cap),
        _ => true,
    }
}

/// Whether the size that a note tells of, if it tells of one, is sound: it buys something
/// that is worth no more than a positive cap, and it is what the account, the market and the
/// settings allow. See [`sound_trade`].
pub open spec fn sized_well(note: Note, v: TickView) -> bool {
    match note {
        Note::Sized { qty, notional, stop, cap, was_capped } => {
            &&& qty > 0
            &&& cap > 0 ==> notional <= cap
            &&& v.allows(qty as int, notional as int, stop as int, cap, was_capped)
        },
        _ => true,
    }
}

proof fn lemma_sized_well(
    v: TickView,
    qty: i128,
    notional: i128,
    stop: i128,
    cap: i128,
    was_capped: bool,
    risk: int,
)
    requires
        qty > 0,
        cap > 0 ==> notional <= cap,
        v.bears_out(qty as int, notional as int, stop as int, cap, was_capped, risk),
    ensures
        sized_well(Note::Sized { qty, notional, stop, cap, was_capped }, v),
{
}

/// Less than this much BTC counts as none: 0.00001.
pub const BTC_DUST: i128 = 10_000_000;

impl TickView {
    /// Whether a size is what the account, the market and the settings allow.
    pub open spec fn bears_out(
        self,
        qty: int,
        notional: int,
        stop: int,
        cap: i128,
        was_capped: bool,
        risk: int,
    ) -> bool {
        sound_trade(
            qty,
            notional,
            risk,
            was_capped,
            self.base.reading.regime,
            self.state.equity_usdt,
            self.base.wallet.usdt_free as int,
            self.state.peak_equity_usdt as int,
            self.base.market.price as int,
            stop,
            self.base.market.step_size as int,
            self.base.market.min_notional as int,
            Some(self.base.set.risk_multiplier),
            Some(cap),
        )
    }

    /// Whether there is a risk with which a size is allowed.
    pub open spec fn allows(
        self,
        qty: int,
        notional: int,
        stop: int,
        cap: i128,
        was_capped: bool,
    ) -> bool {
        exists|risk: int| #[trigger]
            self.bears_out(qty, notional, stop, cap, was_capped, risk)
    }

    pub open spec fn live(self) -> bool {
        self.base.set.mode == Mode::Live
    }

    /// Whether the wallet holds more than dust.
    pub open spec fn has_btc(self) -> bool {
        self.base.wallet.all_btc() > BTC_DUST
    }

    pub open spec fn with_state(self, state: BotState) -> TickView {
        TickView { state, ..self }
    }

    pub open spec fn with_position(self, position: Position) -> TickView {
        TickView { state: BotState { position, ..self.state }, ..self }
    }

    pub open spec fn at(self, phase: Phase) -> TickView {
        TickView { phase, ..self }
    }

    /// The state after the position was left.
    pub open spec fn flattened(self) -> BotState {
        BotState {
            position: Position::Flat,
            cooldown_until_ms: (self.base.market.now_ms + 3_600_000) as u64,
            ..self.state
        }
    }

    /// The run ends here.
    pub open spec fn ended(self, save: bool, decision: Decision, reason: Seq<char>) -> (TickView, Step) {
        (
            TickView { phase: Phase::Finished, decision, reason, ..self },
            asks(save, Request::Finish),
        )
    }

    /// The run ends with the closing of the books.
    pub open spec fn wrapped(self, save: bool) -> (TickView, Step) {
        (TickView { phase: Phase::Finished, ..self }, asks(save, Request::WrapUp))
    }

    pub open spec fn failed(self) -> (TickView, Step) {
        (TickView { phase: Phase::Finished, ..self }, asks(false, Request::Fail))
    }

    /// The stop of a position that is taken over: 1.8 average true ranges under
    /// the price, or one tick under it where that is not a usable price.
    pub open spec fn takeover_stop(self) -> int {
        let m = self.base.market;
        let stop = m.price - round_div(18 * max_of(self.base.features.atr14_5m as int, 1), 10);
        if stop <= 0 || stop >= m.price {
            saturated(max_of(m.price - m.tick_size, m.tick_size as int))
        } else {
            stop
        }
    }

    /// How much of the wallet can be managed.
    pub open spec fn takeover_qty(self) -> int {
        step_down(self.base.wallet.all_btc(), self.base.market.step_size as int)
    }

    /// The state after the coins in the wallet were taken over.
    pub open spec fn taken_over(self) -> BotState {
        BotState {
            position: opened(
                self.base.market.price,
                self.takeover_qty() as i128,
                self.takeover_stop() as i128,
                None,
                self.base.market.now_ms,
            ),
            last_stop_order_id: None,
            ..self.state
        }
    }

    /// The beginning of a run: a buy of an earlier run whose fill is not known is
    /// cleared up first.
    pub open spec fn begun(self) -> (TickView, Step) {
        if self.live() && self.state.pending_entry_order_id is Some {
            let order_id = self.state.pending_entry_order_id->0;
            (
                self.at(Phase::PendingStatus { order_id }),
                asks(false, Request::QueryOrder { order_id }),
            )
        } else {
            self.reconciled()
        }
    }

    /// The wallet is the truth: a long position without coins is closed. A stop
    /// that protects nothing any more is canceled.
    pub open spec fn reconciled(self) -> (TickView, Step) {
        let gone = self.state.position is Long && !self.has_btc();
        let state = if gone {
            BotState {
                last_stop_order_id: if self.state.position->stop_order_id is Some {
                    self.state.position->stop_order_id
                } else {
                    self.state.last_stop_order_id
                },
                ..self.flattened()
            }
        } else {
            self.state
        };
        let after = self.with_state(state);
        if self.live() && state.position is Flat && state.last_stop_order_id is Some {
            (
                after.at(Phase::OrphanCancel),
                asks(
                    gone,
                    Request::CancelOrder { order_id: state.last_stop_order_id->0 },
                ),
            )
        } else {
            after.settled()
        }
    }

    /// Coins that the bot did not buy are taken over where that is allowed and
    /// worth it, and otherwise block trading.
    pub open spec fn settled(self) -> (TickView, Step) {
        let m = self.base.market;
        if self.state.position is Flat && self.has_btc() {
            if self.live() && self.base.set.allow_external && self.takeover_qty() > 0
                && !below_minimum(m.price as int, self.takeover_qty(), m.min_notional as int)
                && m.price > m.tick_size {
                self.with_state(self.taken_over()).gated()
            } else {
                self.with_position(
                    Position::ExternalInventory {
                        btc_qty: self.base.wallet.all_btc() as i128,
                        detected_time_ms: m.now_ms,
                    },
                ).ended(
                    true,
                    Decision::Wait,
                    "Wallet and memory did not match. I will not trade until fixed."@,
                )
            }
        } else if self.state.position is ExternalInventory {
            if !self.has_btc() {
                self.with_position(Position::Flat).gated()
            } else {
                self.external()
            }
        } else {
            self.gated()
        }
    }

    /// What happens with coins that the bot did not buy.
    pub open spec fn external(self) -> (TickView, Step) {
        let m = self.base.market;
        let sell_qty = step_down(self.base.wallet.btc_free as int, m.step_size as int);
        if !self.live() {
            self.ended(
                false,
                Decision::Wait,
                "This BTC was not bought by the bot. We only watch."@,
            )
        } else if !self.base.set.allow_external {
            self.ended(false, Decision::Wait, "I will not touch BTC I did not buy."@)
        } else if self.base.set.panic_flatten {
            if sell_qty <= 0 {
                self.ended(false, Decision::Wait, "The BTC amount is too small to sell."@)
            } else if below_minimum(m.price as int, sell_qty, m.min_notional as int) {
                self.ended(
                    false,
                    Decision::Wait,
                    "We cannot sell yet. It is below Binance minimum."@,
                )
            } else {
                (
                    self.at(Phase::EmergencySell),
                    asks(false, Request::SellMarket { qty: sell_qty as i128 }),
                )
            }
        } else if self.takeover_qty() <= 0 {
            self.ended(false, Decision::Wait, "External BTC is too small to manage."@)
        } else if below_minimum(m.price as int, self.takeover_qty(), m.min_notional as int) {
            self.ended(false, Decision::Wait, "External BTC is below Binance minimum."@)
        } else {
            self.with_state(self.taken_over()).gated()
        }
    }

    /// What holds the bot back before it looks at the market: death, hibernation
    /// and the pause after an exit.
    pub open spec fn gated(self) -> (TickView, Step) {
        let now_ms = self.base.market.now_ms;
        if self.state.is_dead {
            self.ended(true, Decision::Stop, "We lost too much. Bot is dead."@)
        } else if now_ms < self.state.hibernation_until_ms || now_ms < self.state.cooldown_until_ms {
            self.ended(true, Decision::Wait, "We wait. Not time yet."@)
        } else {
            match self.state.position {
                Position::Flat => self.entry_planned(),
                Position::ExternalInventory { .. } => TickView {
                    decision: Decision::Wait,
                    reason: "external_inventory"@,
                    ..self
                }.wrapped(true),
                Position::Long { stop_order_id, exchange_stop_price, .. } => if self.live()
                    && stop_order_id is Some {
                    (
                        self.at(Phase::StopStatus),
                        asks(true, Request::QueryOrder { order_id: stop_order_id->0 }),
                    )
                } else {
                    self.exit_checked(exchange_stop_price)
                },
            }
        }
    }

    /// The most that one trade may be worth: a share of the equity, and no more
    /// than an absolute amount where one is set.
    pub open spec fn cap(self) -> int {
        let share = saturated(
            max_of(
                product(
                    self.state.equity_usdt as int,
                    self.base.set.max_notional_fraction as int,
                ),
                0,
            ),
        );
        match self.base.set.max_notional_usdt {
            Some(a) => min_of(share, max_of(a as int, 0)),
            None => share,
        }
    }

    /// The signal of this moment.
    #[verifier::opaque]
    pub open spec fn signal(self) -> crate::signals::SignalView {
        let b = self.base;
        entry_signal(
            b.reading.regime,
            b.features,
            b.market.price as int,
            b.reading.vol_ratio as int,
            b.reading.vol_squeeze,
            b.reading.htf_bullish,
            b.reading.bearish_bias,
            b.set.signals,
        )
    }

    /// The size of an entry with the given stop.
    #[verifier::opaque]
    pub open spec fn sized(self, stop: int) -> Option<RiskView> {
        let b = self.base;
        entry_decision(
            b.reading.regime,
            Some(self.state.equity_usdt),
            Some(b.wallet.usdt_free),
            self.state.peak_equity_usdt as int,
            self.state.daily_loss_start_equity_usdt as int,
            self.state.session_pnl_usdt as int,
            Some(b.market.price),
            Some(stop as i128),
            Some(b.market.step_size),
            Some(b.market.min_notional),
            Some(b.set.risk_multiplier),
            Some(self.cap() as i128),
        )
    }

    /// The reason that goes with a planned buy.
    pub open spec fn plan_text(self, reason: Seq<char>, qty: int, notional: int) -> Seq<char> {
        reason + " | plan qty="@ + fixed_text(qty, 8) + " notional="@ + fixed_text(notional, 2)
            + " minNotional=PASS fee~"@ + plain_text(self.base.set.taker_fee_bps as int)
            + "bps slip~"@ + plain_text(self.base.set.slippage_bps as int) + "bps"@
    }

    /// Whether to buy: not on old data, not after the last trade of the day, not
    /// without a signal, and not beyond the risk limits.
    pub open spec fn entry_planned(self) -> (TickView, Step) {
        let m = self.base.market;
        let sig = self.signal();
        let stop = saturated(sig.stop_price->0);
        if m.stale_any {
            self.ended(
                true,
                Decision::Wait,
                "Market data is delayed (5m: "@ + nat_text((m.lag_5m_ms / 60_000) as nat)
                    + "m, 1h: "@ + nat_text((m.lag_1h_ms / 60_000) as nat)
                    + "m). Waiting for fresh data."@,
            )
        } else if self.state.trades_today >= self.base.set.max_trades_per_day {
            self.ended(
                true,
                Decision::Wait,
                "Daily trade limit reached. Resting until the next session."@,
            )
        } else if sig.action != Action::EnterLong {
            TickView { decision: Decision::Wait, reason: sig.reason, ..self }.wrapped(true)
        } else {
            match self.sized(stop) {
                None => self.failed(),
                Some(RiskView::Block { reason, hibernate }) => if hibernate {
                    TickView {
                        state: BotState {
                            hibernation_until_ms: (m.now_ms + DAY_MS) as u64,
                            ..self.state
                        },
                        decision: Decision::Hibernate,
                        reason,
                        ..self
                    }.wrapped(true)
                } else {
                    TickView { decision: Decision::BlockEntry, reason, ..self }.wrapped(true)
                },
                Some(RiskView::Allow { qty, notional, was_capped, .. }) => noted(
                    self.size_allowed(sig.reason, stop as i128, qty, notional),
                    Note::Sized {
                        qty: qty as i128,
                        notional: notional as i128,
                        stop: stop as i128,
                        cap: self.cap() as i128,
                        was_capped,
                    },
                ),
            }
        }
    }

    /// A buy was allowed: it is made unless it is below the exchange's minimum.
    pub open spec fn size_allowed(
        self,
        reason: Seq<char>,
        stop: i128,
        qty: int,
        notional: int,
    ) -> (TickView, Step) {
        let m = self.base.market;
        if below_minimum(m.price as int, qty, m.min_notional as int) {
            self.ended(
                true,
                Decision::Wait,
                "We wait. This trade would be too small for Binance."@,
            )
        } else {
            (
                TickView {
                    phase: Phase::Buying { qty: qty as i128, stop },
                    why: self.plan_text(reason, qty, notional),
                    ..self
                },
                asks(true, Request::BuyMarket { qty: qty as i128 }),
            )
        }
    }

    /// The buy was taken. A live one is noted as pending before its fill is asked
    /// for.
    pub open spec fn bought(self, qty: i128, stop: i128, order_id: Option<u64>) -> (TickView, Step) {
        let after = TickView {
            did_place_order: true,
            decision: Decision::EnterLong,
            reason: self.why,
            ..self
        };
        if self.live() && order_id is Some {
            (
                TickView {
                    state: BotState {
                        pending_entry_order_id: order_id,
                        pending_entry_stop_price: Some(stop),
                        ..self.state
                    },
                    phase: Phase::BuyStatus { order_id: order_id->0, qty, stop },
                    ..after
                },
                asks(true, Request::QueryOrder { order_id: order_id->0 }),
            )
        } else {
            after.entered(self.base.market.price, qty, stop)
        }
    }

    /// The price at which an order was executed, or the market price where that is
    /// not known.
    pub open spec fn filled_price(self, f: OrderFacts) -> int {
        match average_price(f.executed->0 as int, f.quote->0 as int) {
            Some(p) => p as int,
            None => self.base.market.price as int,
        }
    }

    /// Whether the report on an order cannot be read: a quantity that is no
    /// number, or a value that is none where something was executed.
    pub open spec fn unreadable(f: OrderFacts) -> bool {
        f.executed is None || (f.executed->0 > 0 && f.quote is None)
    }

    /// The buy was reported on. The entry takes over its price and quantity.
    pub open spec fn buy_reported(self, order_id: u64, qty: i128, stop: i128, f: OrderFacts) -> (
        TickView,
        Step,
    ) {
        if TickView::unreadable(f) {
            self.failed()
        } else {
            (
                self.at(
                    Phase::BuyTrades {
                        entry_price: self.filled_price(f) as i128,
                        qty: if f.executed->0 > 0 {
                            f.executed->0
                        } else {
                            qty
                        },
                        stop,
                    },
                ),
                asks(false, Request::QueryTrades { order_id }),
            )
        }
    }

    /// The state after the fees of an order were booked: fees that cannot be read
    /// are left out.
    pub open spec fn charged(self, trades: Seq<MyTrade>, price: int) -> BotState {
        match fees_of(trades, price, trades.len() as int) {
            Some(fee) => if fee > 0 {
                BotState {
                    fees_usdt: saturated(self.state.fees_usdt + fee) as i128,
                    equity_usdt: saturated(self.state.equity_usdt - fee) as i128,
                    is_dead: self.state.is_dead || self.state.equity_usdt - fee <= 0,
                    ..self.state
                }
            } else {
                self.state
            },
            None => self.state,
        }
    }

    /// The limit of a stop order: 0.2% under the stop, and at least 0.01.
    pub open spec fn limit_under(stop: int) -> int {
        max_of(round_div(998 * stop, 1000), 10_000_000_000)
    }

    /// The position is on. Its profit is taken at three times the risk. A live one
    /// is protected at the exchange at once.
    pub open spec fn entered(self, entry_price: i128, qty: i128, stop: i128) -> (TickView, Step) {
        let m = self.base.market;
        let tp = saturated(m.price + 3 * (m.price - stop));
        let after = self.with_state(
            BotState {
                position: opened(entry_price, qty, stop, Some(tp as i128), m.now_ms),
                last_stop_order_id: None,
                trades_today: if self.state.trades_today == u32::MAX {
                    u32::MAX
                } else {
                    (self.state.trades_today + 1) as u32
                },
                pending_entry_order_id: None,
                pending_entry_stop_price: None,
                ..self.state
            },
        );
        if self.live() {
            (
                after.at(Phase::EntryStop { qty, stop }),
                Step {
                    save: true,
                    note: Note::Entered,
                    alert: Alert::Nothing,
                    request: Request::PlaceStop {
                        qty,
                        stop_price: stop,
                        limit_price: TickView::limit_under(stop as int) as i128,
                    },
                },
            )
        } else {
            (
                after.at(Phase::Finished),
                Step {
                    save: true,
                    note: Note::Entered,
                    alert: Alert::Nothing,
                    request: Request::WrapUp,
                },
            )
        }
    }

    /// The state with the stop order of the position.
    pub open spec fn protected(self, order_id: u64, stop: i128) -> BotState {
        BotState {
            position: with_stop_order(self.state.position, Some(order_id), usable(Some(stop))),
            last_stop_order_id: Some(order_id),
            ..self.state
        }
    }

    /// The position could not be protected and is gone.
    pub open spec fn panic_flattened(self) -> (TickView, Step) {
        (
            TickView {
                state: self.flattened(),
                phase: Phase::Finished,
                decision: Decision::Sell,
                reason: "I failed to place protection. I sold to stay safe."@,
                ..self
            },
            Step {
                save: true,
                note: Note::Nothing,
                alert: Alert::PanicFlattened,
                request: Request::Finish,
            },
        )
    }

    /// The stop of the new position was answered. Without one the position is sold
    /// at once; where it is less than one step, that cannot be done.
    pub open spec fn entry_protected(self, qty: i128, stop: i128, r: OrderResult) -> (TickView, Step) {
        match r {
            OrderResult::Accepted { order_id: Some(id) } => self.with_state(
                self.protected(id, stop),
            ).wrapped(true),
            _ => {
                let sell_qty = step_down(qty as int, self.base.market.step_size as int);
                if sell_qty > 0 {
                    (
                        self.at(Phase::PanicSell),
                        asks(true, Request::SellMarket { qty: sell_qty as i128 }),
                    )
                } else {
                    self.panic_sold(OrderResult::Failed)
                }
            },
        }
    }

    /// The sale of an unprotected position was answered. Where it failed, the
    /// position stays in the books.
    pub open spec fn panic_sold(self, r: OrderResult) -> (TickView, Step) {
        match r {
            OrderResult::Accepted { .. } => TickView {
                did_place_order: true,
                ..self
            }.panic_flattened(),
            OrderResult::Failed => (
                TickView {
                    phase: Phase::Finished,
                    decision: Decision::SellFailed,
                    reason: "I failed to place protection and could not sell. The position is still open."@,
                    ..self
                },
                Step {
                    save: true,
                    note: Note::Nothing,
                    alert: Alert::PanicFlattenFailed,
                    request: Request::Finish,
                },
            ),
        }
    }

    /// A buy of an earlier run was reported on, or not. While nothing is known of
    /// it the bot waits; a dead order is forgotten; an executed one becomes the
    /// position.
    pub open spec fn pending_reported(self, order_id: u64, facts: Option<OrderFacts>) -> (TickView, Step) {
        let waiting = self.ended(
            false,
            Decision::Wait,
            "A buy is still pending. We wait for its fill."@,
        );
        match facts {
            None => waiting,
            Some(f) => if TickView::unreadable(f) {
                waiting
            } else if f.executed->0 > 0 {
                (
                    TickView {
                        phase: Phase::BuyTrades {
                            entry_price: self.filled_price(f) as i128,
                            qty: f.executed->0,
                            stop: match self.state.pending_entry_stop_price {
                                Some(s) => s,
                                None => self.takeover_stop() as i128,
                            },
                        },
                        decision: Decision::EnterLong,
                        reason: "The pending buy was filled."@,
                        ..self
                    },
                    asks(false, Request::QueryTrades { order_id }),
                )
            } else if f.state == OrderState::Dead {
                self.with_state(
                    BotState {
                        pending_entry_order_id: None,
                        pending_entry_stop_price: None,
                        ..self.state
                    },
                ).reconciled()
            } else {
                waiting
            },
        }
    }

    /// An orphaned stop was canceled, or not: it is forgotten unless that may be
    /// tried again.
    pub open spec fn orphan_canceled(self, r: CancelResult) -> (TickView, Step) {
        match r {
            CancelResult::Failed => self.settled(),
            _ => self.with_state(
                BotState { last_stop_order_id: None, ..self.state },
            ).settled(),
        }
    }

    /// The coins that the bot did not buy were sold, or not.
    pub open spec fn emergency_sold(self, r: OrderResult) -> (TickView, Step) {
        match r {
            OrderResult::Accepted { .. } => TickView {
                state: self.flattened(),
                did_place_order: true,
                ..self
            }.ended(true, Decision::Sell, "Emergency sell. We flatten."@),
            OrderResult::Failed => self.failed(),
        }
    }

    /// The stop of the position was reported on, or not.
    pub open spec fn stop_reported(self, facts: Option<OrderFacts>) -> (TickView, Step) {
        match facts {
            None => self.exit_checked(self.state.position->exchange_stop_price),
            Some(f) => if f.state == OrderState::Filled {
                let p = self.state.position;
                (
                    TickView {
                        state: BotState { last_stop_order_id: None, ..self.flattened() },
                        phase: Phase::Finished,
                        decision: Decision::Wait,
                        reason: "The exchange stop already sold the position. We rest."@,
                        why: "exchange_stop_filled"@,
                        ..self
                    },
                    Step {
                        save: true,
                        note: Note::Exited {
                            entry_time_ms: p->entry_time_ms,
                            entry_price: p->entry_price,
                            exit_price: p->stop_price,
                            qty: p->Long_qty,
                        },
                        alert: Alert::Nothing,
                        request: Request::Finish,
                    },
                )
            } else {
                let kept = if f.state == OrderState::Dead {
                    without_stop_order(self.state.position)
                } else {
                    self.state.position
                };
                let position = with_exchange_stop(kept, usable(f.stop));
                let existing = if f.stop is Some {
                    f.stop
                } else {
                    position->exchange_stop_price
                };
                self.with_position(position).exit_checked(existing)
            },
        }
    }

    /// Whether the price has earned the fees and the slippage of both ways: it is
    /// at least `entry_price * (1 + 2 * (fee + slippage) / 10000)`, compared before
    /// anything is rounded.
    pub open spec fn costs_earned(self, entry_price: int) -> bool {
        entry_price * (10_000 * ONE + 2 * (self.base.set.taker_fee_bps
            + self.base.set.slippage_bps)) <= self.base.market.price * (10_000 * ONE)
    }

    /// Whether a position is left in a range: the price is back at the middle band
    /// and has earned its costs, and the strength index is at 50 or more.
    pub open spec fn range_done(self, entry_price: int) -> bool {
        &&& self.base.reading.regime == Regime::Ranging
        &&& self.base.market.price >= self.base.features.bb_mid20_5m
        &&& self.costs_earned(entry_price)
        &&& self.base.features.rsi14_5m >= 50 * ONE
    }

    /// What becomes of the position now.
    pub open spec fn judged(self) -> Managed {
        if self.range_done(self.state.position->entry_price as int) {
            Managed {
                position: self.state.position,
                decision: PositionDecision::ExitLong,
                reason: "Mean reversion done. We take profit."@,
            }
        } else {
            managed(
                self.state.position,
                self.base.market.price as int,
                self.base.features.atr14_5m as int,
                self.base.market.now_ms,
                self.base.reading.bearish_bias,
            )
        }
    }

    /// Whether the position is left. `existing` is the stop price that the
    /// exchange is known to hold.
    pub open spec fn exit_checked(self, existing: Option<i128>) -> (TickView, Step) {
        let j = self.judged();
        let after = TickView { why: j.reason, ..self.with_position(j.position) };
        if j.decision == PositionDecision::Hold {
            TickView { decision: Decision::HoldLong, reason: j.reason, ..after }.held(existing)
        } else {
            noted(
                after.leaving(),
                Note::Leaving {
                    qty: j.position->Long_qty,
                    entry_price: j.position->entry_price,
                },
            )
        }
    }

    /// The position is to be sold: what of it the wallet holds, in whole steps, unless
    /// that is below the exchange's minimum. A stop order is canceled first.
    pub open spec fn leaving(self) -> (TickView, Step) {
        let m = self.base.market;
        let p = self.state.position;
        let sell_qty = step_down(
            min_of(p->Long_qty as int, self.base.wallet.all_btc()),
            m.step_size as int,
        );
        if sell_qty <= 0 {
            TickView {
                decision: Decision::Wait,
                reason: "We want to sell, but the amount is too small."@,
                ..self
            }.wrapped(true)
        } else if below_minimum(m.price as int, sell_qty, m.min_notional as int) {
            TickView {
                decision: Decision::Wait,
                reason: "We want to sell, but Binance minimum blocks it."@,
                ..self
            }.wrapped(true)
        } else if self.live() && p->stop_order_id is Some {
            (
                self.at(Phase::ExitCancel { sell_qty: sell_qty as i128 }),
                asks(true, Request::CancelOrder { order_id: p->stop_order_id->0 }),
            )
        } else {
            (
                self.at(Phase::ExitSell),
                asks(true, Request::SellMarket { qty: sell_qty as i128 }),
            )
        }
    }

    /// The stop was canceled before the sale: whatever came of that, the position
    /// is sold.
    pub open spec fn exit_canceled(self, sell_qty: i128) -> (TickView, Step) {
        (
            self.with_position(without_stop_order(self.state.position)).at(Phase::ExitSell),
            asks(true, Request::SellMarket { qty: sell_qty }),
        )
    }

    /// The position was sold, or not.
    pub open spec fn exit_sold(self, r: OrderResult) -> (TickView, Step) {
        match r {
            OrderResult::Failed => self.failed(),
            OrderResult::Accepted { order_id } => {
                let after = TickView {
                    did_place_order: true,
                    decision: Decision::ExitLong,
                    reason: if contains(self.why, "Stop hit"@) {
                        "Stop hit. We exit."@
                    } else {
                        self.why
                    },
                    ..self
                };
                if self.live() && order_id is Some {
                    (
                        after.at(Phase::ExitStatus { order_id: order_id->0 }),
                        asks(false, Request::QueryOrder { order_id: order_id->0 }),
                    )
                } else {
                    after.left()
                }
            },
        }
    }

    /// The sale was reported on, or not.
    pub open spec fn exit_reported(self, order_id: u64, facts: Option<OrderFacts>) -> (TickView, Step) {
        match facts {
            None => self.left(),
            Some(f) => {
                (
                    self.at(
                        Phase::ExitTrades {
                            avg_sell: if TickView::unreadable(f) {
                                self.base.market.price
                            } else {
                                self.filled_price(f) as i128
                            },
                            exec_qty: if f.executed is Some {
                                f.executed->0
                            } else {
                                0
                            },
                        },
                    ),
                    asks(false, Request::QueryTrades { order_id }),
                )
            },
        }
    }

    /// The fills of the sale are known: fees are booked, and the profit of what
    /// was executed.
    pub open spec fn exit_charged(self, trades: Seq<MyTrade>, avg_sell: i128, exec_qty: i128) -> (
        TickView,
        Step,
    ) {
        let charged = self.charged(trades, avg_sell as int);
        let state = if exec_qty > 0 {
            BotState {
                realized_pnl_usdt: saturated(
                    charged.realized_pnl_usdt + product(
                        avg_sell - self.state.position->entry_price,
                        exec_qty as int,
                    ),
                ) as i128,
                ..charged
            }
        } else {
            charged
        };
        self.with_state(state).left()
    }

    /// The position is closed.
    pub open spec fn left(self) -> (TickView, Step) {
        let p = self.state.position;
        (
            TickView { state: self.flattened(), phase: Phase::Finished, ..self },
            Step {
                save: true,
                note: Note::Exited {
                    entry_time_ms: p->entry_time_ms,
                    entry_price: p->entry_price,
                    exit_price: self.base.market.price,
                    qty: p->Long_qty,
                },
                alert: Alert::Nothing,
                request: Request::WrapUp,
            },
        )
    }

    /// The position is held. A live one has to be protected: where coins are
    /// locked but no stop is known, one is looked for.
    pub open spec fn held(self, existing: Option<i128>) -> (TickView, Step) {
        if !self.live() {
            self.wrapped(true)
        } else if self.state.position->stop_order_id is None && self.base.wallet.btc_locked
            > BTC_DUST {
            (
                self.at(Phase::StopSearch { existing }),
                asks(false, Request::ListOpenOrders),
            )
        } else {
            self.guarded(existing)
        }
    }

    /// The state after a stop was found among the open orders.
    pub open spec fn adopted(self, o: OpenOrder) -> BotState {
        match o.stop_price {
            Some(text) => match fixed_value(text@) {
                Some(p) => BotState {
                    position: with_stop_order(
                        self.state.position,
                        Some(o.order_id),
                        usable(Some(p)),
                    ),
                    last_stop_order_id: Some(o.order_id),
                    ..self.state
                },
                None => self.state,
            },
            None => BotState {
                position: with_stop_order(self.state.position, Some(o.order_id), None),
                ..self.state
            },
        }
    }

    /// The open orders are known, or not: the latest stop among them is adopted.
    pub open spec fn stops_listed(self, orders: Option<Vec<OpenOrder>>, existing: Option<i128>) -> (
        TickView,
        Step,
    ) {
        if orders is Some && exists|i: int| is_latest_stop(orders->0@, i) {
            let i = choose|i: int| is_latest_stop(orders->0@, i);
            self.with_state(self.adopted(orders->0@[i])).guarded(existing)
        } else {
            self.guarded(existing)
        }
    }

    /// The stop at the exchange is placed where there is none, and replaced where
    /// the position's stop has risen by more than a tick.
    pub open spec fn guarded(self, existing: Option<i128>) -> (TickView, Step) {
        let p = self.state.position;
        let m = self.base.market;
        let stop = p->stop_price;
        let protect_qty = step_down(
            min_of(p->Long_qty as int, self.base.wallet.all_btc()),
            m.step_size as int,
        );
        let risen = existing is Some && stop > existing->0 + m.tick_size;
        if p->Long_qty <= 0 || stop <= 0 || protect_qty <= 0 {
            self.wrapped(true)
        } else if p->stop_order_id is None {
            self.stop_requested(protect_qty as i128, stop)
        } else if risen {
            (
                self.at(Phase::StopCancel { protect_qty: protect_qty as i128, stop }),
                asks(true, Request::CancelOrder { order_id: p->stop_order_id->0 }),
            )
        } else {
            self.wrapped(true)
        }
    }

    /// A stop is asked for.
    pub open spec fn stop_requested(self, qty: i128, stop: i128) -> (TickView, Step) {
        (
            self.at(Phase::StopPlace { stop }),
            asks(
                true,
                Request::PlaceStop {
                    qty,
                    stop_price: stop,
                    limit_price: TickView::limit_under(stop as int) as i128,
                },
            ),
        )
    }

    /// The new stop was answered.
    pub open spec fn stop_answered(self, stop: i128, r: OrderResult) -> (TickView, Step) {
        match r {
            OrderResult::Accepted { order_id: Some(id) } => self.with_state(
                self.protected(id, stop),
            ).wrapped(true),
            _ => self.wrapped(true),
        }
    }

    /// What an event comes to. An event that the phase does not wait for fails the
    /// run.
    pub open spec fn next(self, e: Event) -> (TickView, Step) {
        match (self.phase, e) {
            (Phase::PendingStatus { order_id }, Event::OrderInfo { facts }) => self.pending_reported(
                order_id,
                facts,
            ),
            (Phase::OrphanCancel, Event::Canceled { result }) => self.orphan_canceled(result),
            (Phase::EmergencySell, Event::Sold { result }) => self.emergency_sold(result),
            (
                Phase::Buying { qty, stop },
                Event::Bought { result: OrderResult::Accepted { order_id } },
            ) => self.bought(qty, stop, order_id),
            (
                Phase::BuyStatus { order_id, qty, stop },
                Event::OrderInfo { facts: Some(f) },
            ) => self.buy_reported(order_id, qty, stop, f),
            (Phase::BuyTrades { entry_price, qty, stop }, Event::Trades { trades }) => self.with_state(
                self.charged(trades@, entry_price as int),
            ).entered(entry_price, qty, stop),
            (Phase::EntryStop { qty, stop }, Event::StopPlaced { result }) => self.entry_protected(
                qty,
                stop,
                result,
            ),
            (Phase::PanicSell, Event::Sold { result }) => self.panic_sold(result),
            (Phase::StopStatus, Event::OrderInfo { facts }) => self.stop_reported(facts),
            (Phase::ExitCancel { sell_qty }, Event::Canceled { .. }) => self.exit_canceled(sell_qty),
            (Phase::ExitSell, Event::Sold { result }) => self.exit_sold(result),
            (Phase::ExitStatus { order_id }, Event::OrderInfo { facts }) => self.exit_reported(
                order_id,
                facts,
            ),
            (
                Phase::ExitTrades { avg_sell, exec_qty },
                Event::Trades { trades },
            ) => self.exit_charged(trades@, avg_sell, exec_qty),
            (Phase::StopSearch { existing }, Event::OpenOrders { orders }) => self.stops_listed(
                orders,
                existing,
            ),
            (
                Phase::StopCancel { protect_qty, stop },
                Event::Canceled { .. },
            ) => self.with_position(
                without_stop_order(self.state.position),
            ).stop_requested(protect_qty, stop),
            (Phase::StopPlace { stop }, Event::StopPlaced { result }) => self.stop_answered(
                stop,
                result,
            ),
            _ => self.failed(),
        }
    }
}

impl TickView {
    /// Whether the run waits for something that concerns an open position.
    pub open spec fn about_position(self) -> bool {
        match self.phase {
            Phase::StopStatus => true,
            Phase::ExitCancel { .. } => true,
            Phase::ExitSell => true,
            Phase::ExitStatus { .. } => true,
            Phase::ExitTrades { .. } => true,
            Phase::StopSearch { .. } => true,
            Phase::StopCancel { .. } => true,
            Phase::StopPlace { .. } => true,
            _ => false,
        }
    }

    /// Everything is within the range of the arithmetic, and a run that waits for
    /// something about a position has one.
    pub open spec fn ok(self) -> bool {
        &&& self.base.ok()
        &&& self.state.ok()
        &&& self.phase.ok()
        &&& self.about_position() ==> self.state.position is Long
    }
}

impl Tick {
    /// A new run. The state has already taken over the current equity.
    pub fn new(base: TickBase, state: BotState) -> (t: Tick)
        requires
            base.ok(),
            state.ok(),
        ensures
            t.base == base,
            t.state == state,
            t.phase == Phase::Start,
            !t.did_place_order,
            t.decision == Decision::Wait,
            t.reason@ == Seq::<char>::empty(),
            t@.ok(),
    {
        Tick {
            base,
            state,
            phase: Phase::Start,
            did_place_order: false,
            decision: Decision::Wait,
            reason: String::new(),
            why: String::new(),
        }
    }

    fn live(&self) -> (r: bool)
        ensures
            r == self@.live(),
    {
        self.base.set.mode == Mode::Live
    }

    fn has_btc(&self) -> (r: bool)
        requires
            self@.ok(),
        ensures
            r == self@.has_btc(),
    {
        self.base.wallet.btc_total() > BTC_DUST
    }

    fn end(&mut self, save: bool, decision: Decision, reason: String) -> (r: Step)
        requires
            old(self)@.base.ok(),
            old(self)@.state.ok(),
        ensures
            (final(self)@, r) == old(self)@.ended(save, decision, reason@),
            final(self)@.ok(),
            keeps_to_cap(r.note),
            sized_well(r.note, final(self)@),
    {
        self.phase = Phase::Finished;
        self.decision = decision;
        self.reason = reason;
        ask(save, Request::Finish)
    }

    fn end_with(&mut self, save: bool, decision: Decision, reason: &str) -> (r: Step)
        requires
            old(self)@.base.ok(),
            old(self)@.state.ok(),
        ensures
            (final(self)@, r) == old(self)@.ended(save, decision, reason@),
            final(self)@.ok(),
            keeps_to_cap(r.note),
            sized_well(r.note, final(self)@),
    {
        self.end(save, decision, String::from_str(reason))
    }

    fn wrap(&mut self, save: bool) -> (r: Step)
        requires
            old(self)@.base.ok(),
            old(self)@.state.ok(),
        ensures
            (final(self)@, r) == old(self)@.wrapped(save),
            final(self)@.ok(),
            keeps_to_cap(r.note),
            sized_well(r.note, final(self)@),
    {
        self.phase = Phase::Finished;
        ask(save, Request::WrapUp)
    }

    fn fail(&mut self) -> (r: Step)
        requires
            old(self)@.base.ok(),
            old(self)@.state.ok(),
        ensures
            (final(self)@, r) == old(self)@.failed(),
            final(self)@.ok(),
            keeps_to_cap(r.note),
            sized_well(r.note, final(self)@),
    {
        self.phase = Phase::Finished;
        ask(false, Request::Fail)
    }

    fn takeover_stop(&self) -> (r: i128)
        requires
            self@.base.ok(),
        ensures
            r == self@.takeover_stop(),
            bounded(r as int),
    {
        let m: Market = self.base.market;
        let atr: i128 = max_fixed(self.base.features.atr14_5m, 1);
        proof {
            lemma_round_div_bounds(18 * atr, 10, 18 * LIMIT);
            crate::fixed::lemma_round_div_monotone(0, 18 * atr, 10);
            crate::fixed::lemma_round_div_exact(0, 10);
        }
        let stop: i128 = m.price - div_round(18 * atr, 10);
        if stop <= 0 || stop >= m.price {
            saturate(max_fixed(m.price - m.tick_size, m.tick_size))
        } else {
            stop
        }
    }

    fn takeover_qty(&self) -> (r: i128)
        requires
            self@.base.ok(),
        ensures
            r == self@.takeover_qty(),
            r > 0 ==> bounded(r as int),
    {
        round_down_to_step(self.base.wallet.btc_total(), self.base.market.step_size)
    }

    fn take_over(&mut self)
        requires
            old(self)@.base.ok(),
            old(self)@.state.ok(),
            old(self)@.takeover_qty() > 0,
        ensures
            final(self)@ == old(self)@.with_state(old(self)@.taken_over()),
            final(self)@.state.ok(),
    {
        let qty: i128 = self.takeover_qty();
        let stop: i128 = self.takeover_stop();
        self.state.enter_long(self.base.market.price, qty, stop, None, self.base.market.now_ms);
    }

    /// Whether an amount is worth less than the exchange's minimum.
    fn too_small(&self, qty: i128) -> (r: bool)
        requires
            self@.base.ok(),
            wide(qty as int),
        ensures
            r == below_minimum(
                self.base.market.price as int,
                qty as int,
                self.base.market.min_notional as int,
            ),
    {
        ensure_min_notional(self.base.market.price, qty, self.base.market.min_notional).is_err()
    }

    /// Starts the run. See [`TickView::begun`]. A buy that it sizes keeps to the cap.
    pub fn begin(&mut self) -> (r: Step)
        requires
            old(self)@.ok(),
            old(self)@.phase == Phase::Start,
        ensures
            (final(self)@, r) == old(self)@.begun(),
            final(self)@.ok(),
            keeps_to_cap(r.note),
            sized_well(r.note, final(self)@),
    {
        if self.live() {
            if let Some(order_id) = self.state.pending_entry_order_id {
                self.phase = Phase::PendingStatus { order_id };
                return ask(false, Request::QueryOrder { order_id });
            }
        }
        self.reconcile()
    }

    fn reconcile(&mut self) -> (r: Step)
        requires
            old(self)@.base.ok(),
            old(self)@.state.ok(),
        ensures
            (final(self)@, r) == old(self)@.reconciled(),
            final(self)@.ok(),
            keeps_to_cap(r.note),
            sized_well(r.note, final(self)@),
    {
        let mut gone: bool = false;
        if let Position::Long { stop_order_id, .. } = self.state.position {
            if !(self.base.wallet.btc_total() > BTC_DUST) {
                gone = true;
                if stop_order_id.is_some() {
                    self.state.last_stop_order_id = stop_order_id;
                }
                self.state.exit_to_flat_with_cooldown(self.base.market.now_ms);
            }
        }
        if self.live() {
            if let Position::Flat = self.state.position {
                if let Some(order_id) = self.state.last_stop_order_id {
                    self.phase = Phase::OrphanCancel;
                    return ask(gone, Request::CancelOrder { order_id });
                }
            }
        }
        self.settle()
    }

    fn settle(&mut self) -> (r: Step)
        requires
            old(self)@.base.ok(),
            old(self)@.state.ok(),
        ensures
            (final(self)@, r) == old(self)@.settled(),
            final(self)@.ok(),
            keeps_to_cap(r.note),
            sized_well(r.note, final(self)@),
    {
        let m: Market = self.base.market;
        let holds: bool = self.base.wallet.btc_total() > BTC_DUST;
        match self.state.position {
            Position::Flat => {
                if holds {
                    let qty: i128 = self.takeover_qty();
                    if self.live() && self.base.set.allow_external && qty > 0 && !self.too_small(qty)
                        && m.price > m.tick_size {
                        self.take_over();
                        return self.gate();
                    }
                    self.state.position = Position::ExternalInventory {
                        btc_qty: self.base.wallet.btc_total(),
                        detected_time_ms: m.now_ms,
                    };
                    return self.end_with(
                        true,
                        Decision::Wait,
                        "Wallet and memory did not match. I will not trade until fixed.",
                    );
                }
                self.gate()
            },
            Position::ExternalInventory { .. } => {
                if !holds {
                    self.state.position = Position::Flat;
                    return self.gate();
                }
                self.handle_external()
            },
            Position::Long { .. } => self.gate(),
        }
    }

    fn handle_external(&mut self) -> (r: Step)
        requires
            old(self)@.base.ok(),
            old(self)@.state.ok(),
        ensures
            (final(self)@, r) == old(self)@.external(),
            final(self)@.ok(),
            keeps_to_cap(r.note),
            sized_well(r.note, final(self)@),
    {
        if !self.live() {
            return self.end_with(
                false,
                Decision::Wait,
                "This BTC was not bought by the bot. We only watch.",
            );
        }
        if !self.base.set.allow_external {
            return self.end_with(false, Decision::Wait, "I will not touch BTC I did not buy.");
        }
        if self.base.set.panic_flatten {
            let sell_qty: i128 = round_down_to_step(
                self.base.wallet.btc_free,
                self.base.market.step_size,
            );
            if sell_qty <= 0 {
                return self.end_with(
                    false,
                    Decision::Wait,
                    "The BTC amount is too small to sell.",
                );
            }
            if self.too_small(sell_qty) {
                return self.end_with(
                    false,
                    Decision::Wait,
                    "We cannot sell yet. It is below Binance minimum.",
                );
            }
            self.phase = Phase::EmergencySell;
            return ask(false, Request::SellMarket { qty: sell_qty });
        }
        let qty: i128 = self.takeover_qty();
        if qty <= 0 {
            return self.end_with(false, Decision::Wait, "External BTC is too small to manage.");
        }
        if self.too_small(qty) {
            return self.end_with(false, Decision::Wait, "External BTC is below Binance minimum.");
        }
        self.take_over();
        self.gate()
    }

    fn gate(&mut self) -> (r: Step)
        requires
            old(self)@.base.ok(),
            old(self)@.state.ok(),
        ensures
            (final(self)@, r) == old(self)@.gated(),
            final(self)@.ok(),
            keeps_to_cap(r.note),
            sized_well(r.note, final(self)@),
    {
        let now_ms: u64 = self.base.market.now_ms;
        if self.state.is_dead {
            return self.end_with(true, Decision::Stop, "We lost too much. Bot is dead.");
        }
        if self.state.in_hibernation(now_ms) || self.state.in_cooldown(now_ms) {
            return self.end_with(true, Decision::Wait, "We wait. Not time yet.");
        }
        match self.state.position {
            Position::Flat => self.plan_entry(),
            Position::ExternalInventory { .. } => {
                self.decision = Decision::Wait;
                self.reason = String::from_str("external_inventory");
                self.wrap(true)
            },
            Position::Long { stop_order_id, exchange_stop_price, .. } => {
                if self.live() {
                    if let Some(order_id) = stop_order_id {
                        self.phase = Phase::StopStatus;
                        return ask(true, Request::QueryOrder { order_id });
                    }
                }
                self.check_exit(exchange_stop_price)
            },
        }
    }

    /// The most that one trade may be worth. See [`TickView::cap`].
    fn trade_cap(&self) -> (r: i128)
        requires
            self@.base.ok(),
            self@.state.ok(),
        ensures
            r == self@.cap(),
            bounded(r as int),
    {
        let share: i128 = saturate(
            max_fixed(mul_fixed(self.state.equity_usdt, self.base.set.max_notional_fraction), 0),
        );
        match self.base.set.max_notional_usdt {
            Some(a) => min_fixed(share, max_fixed(a, 0)),
            None => share,
        }
    }

    fn plan_reason(&self, reason: &str, qty: i128, notional: i128) -> (s: String)
        requires
            self@.base.ok(),
        ensures
            s@ == self@.plan_text(reason@, qty as int, notional as int),
    {
        let mut s: String = String::from_str(reason);
        s.append(" | plan qty=");
        s.append(fixed_string(qty, 8).as_str());
        s.append(" notional=");
        s.append(fixed_string(notional, 2).as_str());
        s.append(" minNotional=PASS fee~");
        s.append(plain_string(self.base.set.taker_fee_bps).as_str());
        s.append("bps slip~");
        s.append(plain_string(self.base.set.slippage_bps).as_str());
        s.append("bps");
        s
    }

    /// The signal of this moment. See [`TickView::signal`].
    fn current_signal(&self) -> (sig: Signal)
        requires
            self@.base.ok(),
        ensures
            sig@ == self@.signal(),
            sig.action == Action::EnterLong ==> sig.stop_price is Some,
    {
        reveal(TickView::signal);
        let b: TickBase = self.base;
        let m: Market = b.market;
        let sig: Signal = entry_long_signal(
            b.reading.regime,
            &b.features,
            m.price,
            b.reading.vol_ratio,
            b.reading.vol_squeeze,
            b.reading.htf_bullish,
            b.reading.bearish_bias,
            &b.set.signals,
        );
        proof {
            law_entries_are_ranked(
                b.reading.regime,
                b.features,
                m.price as int,
                b.reading.vol_ratio as int,
                b.reading.vol_squeeze,
                b.reading.htf_bullish,
                b.reading.bearish_bias,
                b.set.signals,
            );
        }
        sig
    }

    /// The size of an entry with the given stop. See [`TickView::sized`].
    fn current_size(&self, stop: i128) -> (sized: Option<RiskDecision>)
        requires
            self@.base.ok(),
            self@.state.ok(),
            bounded(stop as int),
        ensures
            crate::risk::view_of(sized) == self@.sized(stop as int),
            crate::risk::in_range(sized),
            !over_cap(sized, Some(self@.cap() as i128)),
            match sized {
                Some(RiskDecision::Allow { qty, notional, risk_usdt, was_capped, .. }) => self@.bears_out(
                    qty as int,
                    notional as int,
                    stop as int,
                    self@.cap() as i128,
                    was_capped,
                    risk_usdt as int,
                ),
                _ => true,
            },
    {
        reveal(TickView::sized);
        let b: TickBase = self.base;
        let m: Market = b.market;
        let cap: i128 = self.trade_cap();
        size_entry_long(
            b.reading.regime,
            Some(self.state.equity_usdt),
            Some(b.wallet.usdt_free),
            self.state.peak_equity_usdt,
            self.state.daily_loss_start_equity_usdt,
            self.state.session_pnl_usdt,
            Some(m.price),
            Some(stop),
            Some(m.step_size),
            Some(m.min_notional),
            Some(b.set.risk_multiplier),
            Some(cap),
        )
    }

    fn plan_entry(&mut self) -> (r: Step)
        requires
            old(self)@.base.ok(),
            old(self)@.state.ok(),
        ensures
            (final(self)@, r) == old(self)@.entry_planned(),
            final(self)@.ok(),
            keeps_to_cap(r.note),
            sized_well(r.note, final(self)@),
    {
        let b: TickBase = self.base;
        let m: Market = b.market;
        if m.stale_any {
            let mut reason: String = String::from_str("Market data is delayed (5m: ");
            reason.append(u64_string(m.lag_5m_ms / 60_000).as_str());
            reason.append("m, 1h: ");
            reason.append(u64_string(m.lag_1h_ms / 60_000).as_str());
            reason.append("m). Waiting for fresh data.");
            return self.end(true, Decision::Wait, reason);
        }
        if self.state.trades_today >= b.set.max_trades_per_day {
            return self.end_with(
                true,
                Decision::Wait,
                "Daily trade limit reached. Resting until the next session.",
            );
        }
        let sig: Signal = self.current_signal();
        if sig.action != Action::EnterLong {
            self.decision = Decision::Wait;
            self.reason = sig.reason;
            return self.wrap(true);
        }
        let stop: i128 = match sig.stop_price {
            Some(p) => saturate(p),
            None => return self.fail(),
        };
        let sized: Option<RiskDecision> = self.current_size(stop);
        match sized {
            None => self.fail(),
            Some(RiskDecision::Block { reason, hibernate }) => {
                if hibernate {
                    self.state.hibernation_until_ms = m.now_ms + DAY_MS;
                    self.decision = Decision::Hibernate;
                } else {
                    self.decision = Decision::BlockEntry;
                }
                self.reason = reason;
                self.wrap(true)
            },
            Some(RiskDecision::Allow { qty, notional, risk_usdt, was_capped, .. }) => {
                let cap: i128 = self.trade_cap();
                let step: Step = self.take_size(sig.reason.as_str(), stop, qty, notional);
                assert(self@.bears_out(
                    qty as int,
                    notional as int,
                    stop as int,
                    cap,
                    was_capped,
                    risk_usdt as int,
                ));
                let note: Note = Note::Sized { qty, notional, stop, cap, was_capped };
                proof {
                    lemma_sized_well(self@, qty, notional, stop, cap, was_capped, risk_usdt as int);
                }
                Step { note, ..step }
            },
        }
    }

    /// A buy was allowed. See [`TickView::size_allowed`].
    fn take_size(&mut self, reason: &str, stop: i128, qty: i128, notional: i128) -> (r: Step)
        requires
            old(self)@.base.ok(),
            old(self)@.state.ok(),
            bounded(qty as int),
            bounded(notional as int),
            bounded(stop as int),
        ensures
            (final(self)@, r) == old(self)@.size_allowed(reason@, stop, qty as int, notional as int),
            final(self)@.ok(),
            keeps_to_cap(r.note),
            sized_well(r.note, final(self)@),
    {
        if self.too_small(qty) {
            return self.end_with(
                true,
                Decision::Wait,
                "We wait. This trade would be too small for Binance.",
            );
        }
        self.why = self.plan_reason(reason, qty, notional);
        self.phase = Phase::Buying { qty, stop };
        ask(true, Request::BuyMarket { qty })
    }

    fn note_buy(&mut self, qty: i128, stop: i128, order_id: Option<u64>) -> (r: Step)
        requires
            old(self)@.base.ok(),
            old(self)@.state.ok(),
            bounded(qty as int),
            bounded(stop as int),
        ensures
            (final(self)@, r) == old(self)@.bought(qty, stop, order_id),
            final(self)@.ok(),
            keeps_to_cap(r.note),
            sized_well(r.note, final(self)@),
    {
        self.did_place_order = true;
        self.decision = Decision::EnterLong;
        self.reason = self.why.clone();
        if self.live() {
            if let Some(id) = order_id {
                self.state.pending_entry_order_id = Some(id);
                self.state.pending_entry_stop_price = Some(stop);
                self.phase = Phase::BuyStatus { order_id: id, qty, stop };
                return ask(true, Request::QueryOrder { order_id: id });
            }
        }
        let price: i128 = self.base.market.price;
        self.enter(price, qty, stop)
    }

    /// Whether the report on an order cannot be read.
    fn cannot_read(f: OrderFacts) -> (r: bool)
        ensures
            r == TickView::unreadable(f),
    {
        match f.executed {
            None => true,
            Some(q) => q > 0 && f.quote.is_none(),
        }
    }

    fn filled_price(&self, f: OrderFacts) -> (r: i128)
        requires
            self@.base.ok(),
            f.ok(),
            !TickView::unreadable(f),
        ensures
            r == self@.filled_price(f),
            bounded(r as int),
    {
        if let Some(q) = f.executed {
            if q > 0 {
                if let Some(v) = f.quote {
                    if v > 0 {
                        return saturate(crate::fixed::div_fixed(v, q));
                    }
                }
            }
        }
        self.base.market.price
    }

    fn note_fees(&mut self, trades: &Vec<MyTrade>, price: i128)
        requires
            old(self)@.base.ok(),
            old(self)@.state.ok(),
            bounded(price as int),
        ensures
            final(self)@ == old(self)@.with_state(old(self)@.charged(trades@, price as int)),
            final(self)@.state.ok(),
    {
        if let Ok(fee) = fee_usdt_from_trades(trades, price) {
            if fee > 0 {
                self.state.apply_fee(fee);
            }
        }
    }

    /// The limit of a stop order. See [`TickView::limit_under`].
    fn stop_limit(stop: i128) -> (r: i128)
        requires
            bounded(stop as int),
        ensures
            r == TickView::limit_under(stop as int),
    {
        max_fixed(div_round(998 * stop, 1000), 10_000_000_000)
    }

    fn enter(&mut self, entry_price: i128, qty: i128, stop: i128) -> (r: Step)
        requires
            old(self)@.base.ok(),
            old(self)@.state.ok(),
            bounded(entry_price as int),
            bounded(qty as int),
            bounded(stop as int),
        ensures
            (final(self)@, r) == old(self)@.entered(entry_price, qty, stop),
            final(self)@.ok(),
            keeps_to_cap(r.note),
            sized_well(r.note, final(self)@),
    {
        let m: Market = self.base.market;
        let tp: i128 = saturate(m.price + 3 * (m.price - stop));
        self.state.enter_long(entry_price, qty, stop, Some(tp), m.now_ms);
        self.state.bump_trades_today();
        self.state.pending_entry_order_id = None;
        self.state.pending_entry_stop_price = None;
        if self.live() {
            self.phase = Phase::EntryStop { qty, stop };
            Step {
                save: true,
                note: Note::Entered,
                alert: Alert::Nothing,
                request: Request::PlaceStop {
                    qty,
                    stop_price: stop,
                    limit_price: Tick::stop_limit(stop),
                },
            }
        } else {
            self.phase = Phase::Finished;
            Step {
                save: true,
                note: Note::Entered,
                alert: Alert::Nothing,
                request: Request::WrapUp,
            }
        }
    }

    fn note_protection(&mut self, order_id: u64, stop: i128)
        requires
            old(self)@.base.ok(),
            old(self)@.state.ok(),
            bounded(stop as int),
        ensures
            final(self)@ == old(self)@.with_state(old(self)@.protected(order_id, stop)),
            final(self)@.state.ok(),
    {
        self.state.set_stop_order(order_id, Some(stop));
    }

    fn flatten_in_panic(&mut self) -> (r: Step)
        requires
            old(self)@.base.ok(),
            old(self)@.state.ok(),
        ensures
            (final(self)@, r) == old(self)@.panic_flattened(),
            final(self)@.ok(),
            keeps_to_cap(r.note),
            sized_well(r.note, final(self)@),
    {
        self.state.exit_to_flat_with_cooldown(self.base.market.now_ms);
        self.phase = Phase::Finished;
        self.decision = Decision::Sell;
        self.reason = String::from_str("I failed to place protection. I sold to stay safe.");
        Step {
            save: true,
            note: Note::Nothing,
            alert: Alert::PanicFlattened,
            request: Request::Finish,
        }
    }

    fn protect_entry(&mut self, qty: i128, stop: i128, result: OrderResult) -> (r: Step)
        requires
            old(self)@.base.ok(),
            old(self)@.state.ok(),
            bounded(qty as int),
            bounded(stop as int),
        ensures
            (final(self)@, r) == old(self)@.entry_protected(qty, stop, result),
            final(self)@.ok(),
            keeps_to_cap(r.note),
            sized_well(r.note, final(self)@),
    {
        if let OrderResult::Accepted { order_id: Some(id) } = result {
            self.note_protection(id, stop);
            return self.wrap(true);
        }
        let sell_qty: i128 = round_down_to_step(qty, self.base.market.step_size);
        if sell_qty > 0 {
            self.phase = Phase::PanicSell;
            return ask(true, Request::SellMarket { qty: sell_qty });
        }
        self.settle_panic(OrderResult::Failed)
    }

    fn settle_panic(&mut self, result: OrderResult) -> (r: Step)
        requires
            old(self)@.base.ok(),
            old(self)@.state.ok(),
        ensures
            (final(self)@, r) == old(self)@.panic_sold(result),
            final(self)@.ok(),
            keeps_to_cap(r.note),
            sized_well(r.note, final(self)@),
    {
        if let OrderResult::Accepted { .. } = result {
            self.did_place_order = true;
            return self.flatten_in_panic();
        }
        self.phase = Phase::Finished;
        self.decision = Decision::SellFailed;
        self.reason = String::from_str(
            "I failed to place protection and could not sell. The position is still open.",
        );
        Step {
            save: true,
            note: Note::Nothing,
            alert: Alert::PanicFlattenFailed,
            request: Request::Finish,
        }
    }

    fn note_pending(&mut self, order_id: u64, facts: Option<OrderFacts>) -> (r: Step)
        requires
            old(self)@.base.ok(),
            old(self)@.state.ok(),
            facts is Some ==> facts->0.ok(),
        ensures
            (final(self)@, r) == old(self)@.pending_reported(order_id, facts),
            final(self)@.ok(),
            keeps_to_cap(r.note),
            sized_well(r.note, final(self)@),
    {
        if let Some(f) = facts {
            if !Tick::cannot_read(f) {
                let executed: i128 = match f.executed {
                    Some(q) => q,
                    None => 0,
                };
                if executed > 0 {
                    let stop: i128 = match self.state.pending_entry_stop_price {
                        Some(s) => s,
                        None => self.takeover_stop(),
                    };
                    self.phase = Phase::BuyTrades {
                        entry_price: self.filled_price(f),
                        qty: executed,
                        stop,
                    };
                    self.decision = Decision::EnterLong;
                    self.reason = String::from_str("The pending buy was filled.");
                    return ask(false, Request::QueryTrades { order_id });
                }
                if f.state == OrderState::Dead {
                    self.state.pending_entry_order_id = None;
                    self.state.pending_entry_stop_price = None;
                    return self.reconcile();
                }
            }
        }
        self.end_with(false, Decision::Wait, "A buy is still pending. We wait for its fill.")
    }

    fn note_stop_report(&mut self, facts: Option<OrderFacts>) -> (r: Step)
        requires
            old(self)@.base.ok(),
            old(self)@.state.ok(),
            old(self)@.state.position is Long,
            facts is Some ==> facts->0.ok(),
        ensures
            (final(self)@, r) == old(self)@.stop_reported(facts),
            final(self)@.ok(),
            keeps_to_cap(r.note),
            sized_well(r.note, final(self)@),
    {
        let f: OrderFacts = match facts {
            Some(f) => f,
            None => {
                let existing: Option<i128> = self.known_stop();
                return self.check_exit(existing);
            },
        };
        if f.state == OrderState::Filled {
            if let Position::Long { entry_time_ms, entry_price, qty, stop_price, .. } =
                self.state.position {
                self.state.exit_to_flat_with_cooldown(self.base.market.now_ms);
                self.state.clear_last_stop_order_id();
                self.phase = Phase::Finished;
                self.decision = Decision::Wait;
                self.reason = String::from_str(
                    "The exchange stop already sold the position. We rest.",
                );
                self.why = String::from_str("exchange_stop_filled");
                return Step {
                    save: true,
                    note: Note::Exited { entry_time_ms, entry_price, exit_price: stop_price, qty },
                    alert: Alert::Nothing,
                    request: Request::Finish,
                };
            }
        }
        if f.state == OrderState::Dead {
            self.state.clear_stop_order_id_in_position();
        }
        self.state.set_exchange_stop_price_from_exchange(f.stop);
        let existing: Option<i128> = match f.stop {
            Some(p) => Some(p),
            None => self.known_stop(),
        };
        self.check_exit(existing)
    }

    /// The stop price that the exchange is known to hold.
    fn known_stop(&self) -> (r: Option<i128>)
        requires
            self.state.position is Long,
        ensures
            r == self.state.position->exchange_stop_price,
    {
        match self.state.position {
            Position::Long { exchange_stop_price, .. } => exchange_stop_price,
            _ => None,
        }
    }

    /// Whether the position is left in a range. See [`TickView::range_done`].
    fn range_done(&self, entry_price: i128) -> (r: bool)
        requires
            self@.base.ok(),
            bounded(entry_price as int),
        ensures
            r == self@.range_done(entry_price as int),
    {
        let set: TickSettings = self.base.set;
        let factor: i128 = 10_000 * ONE + 2 * (set.taker_fee_bps + set.slippage_bps);
        self.base.reading.regime == Regime::Ranging && self.base.market.price
            >= self.base.features.bb_mid20_5m && product_at_most(
            entry_price,
            factor,
            self.base.market.price,
            10_000 * ONE,
        ) && self.base.features.rsi14_5m >= 50 * ONE
    }

    fn check_exit(&mut self, existing: Option<i128>) -> (r: Step)
        requires
            old(self)@.base.ok(),
            old(self)@.state.ok(),
            old(self)@.state.position is Long,
            existing is Some ==> bounded(existing->0 as int),
        ensures
            (final(self)@, r) == old(self)@.exit_checked(existing),
            final(self)@.ok(),
            keeps_to_cap(r.note),
            sized_well(r.note, final(self)@),
    {
        let b: TickBase = self.base;
        let (entry_price, qty) = self.held_amount();
        let mut decision: PositionDecision = PositionDecision::ExitLong;
        if self.range_done(entry_price) {
            self.why = String::from_str("Mean reversion done. We take profit.");
        } else {
            let managed_now: (PositionDecision, String) = self.state.manage_open_position(
                b.market.price,
                b.features.atr14_5m,
                b.market.now_ms,
                b.reading.bearish_bias,
            );
            decision = managed_now.0;
            self.why = managed_now.1;
        }
        assert(self.state.position is Long);
        if decision == PositionDecision::Hold {
            self.decision = Decision::HoldLong;
            self.reason = self.why.clone();
            return self.hold_position(existing);
        }
        let step: Step = self.sell_position();
        Step { note: Note::Leaving { qty, entry_price }, ..step }
    }

    /// The price and the quantity of the position.
    fn held_amount(&self) -> (r: (i128, i128))
        requires
            self@.state.ok(),
            self@.state.position is Long,
        ensures
            r.0 == self@.state.position->entry_price,
            r.1 == self@.state.position->Long_qty,
            bounded(r.0 as int),
            bounded(r.1 as int),
    {
        match self.state.position {
            Position::Long { entry_price, qty, .. } => (entry_price, qty),
            _ => (0i128, 0i128),
        }
    }

    /// The position is to be sold. See [`TickView::leaving`].
    fn sell_position(&mut self) -> (r: Step)
        requires
            old(self)@.base.ok(),
            old(self)@.state.ok(),
            old(self)@.state.position is Long,
        ensures
            (final(self)@, r) == old(self)@.leaving(),
            final(self)@.ok(),
            keeps_to_cap(r.note),
            sized_well(r.note, final(self)@),
    {
        let b: TickBase = self.base;
        let (_, qty) = self.held_amount();
        let sell_qty: i128 = round_down_to_step(
            min_fixed(qty, b.wallet.btc_total()),
            b.market.step_size,
        );
        if sell_qty <= 0 {
            self.decision = Decision::Wait;
            self.reason = String::from_str("We want to sell, but the amount is too small.");
            return self.wrap(true);
        }
        if self.too_small(sell_qty) {
            self.decision = Decision::Wait;
            self.reason = String::from_str("We want to sell, but Binance minimum blocks it.");
            return self.wrap(true);
        }
        if self.live() {
            if let Position::Long { stop_order_id: Some(order_id), .. } = self.state.position {
                self.phase = Phase::ExitCancel { sell_qty };
                return ask(true, Request::CancelOrder { order_id });
            }
        }
        self.phase = Phase::ExitSell;
        ask(true, Request::SellMarket { qty: sell_qty })
    }

    fn note_exit_order(&mut self, result: OrderResult) -> (r: Step)
        requires
            old(self)@.base.ok(),
            old(self)@.state.ok(),
            old(self)@.state.position is Long,
        ensures
            (final(self)@, r) == old(self)@.exit_sold(result),
            final(self)@.ok(),
            keeps_to_cap(r.note),
            sized_well(r.note, final(self)@),
    {
        let order_id: Option<u64> = match result {
            OrderResult::Failed => return self.fail(),
            OrderResult::Accepted { order_id } => order_id,
        };
        self.did_place_order = true;
        self.decision = Decision::ExitLong;
        if contains_text(self.why.as_str(), "Stop hit") {
            self.reason = String::from_str("Stop hit. We exit.");
        } else {
            self.reason = self.why.clone();
        }
        if self.live() {
            if let Some(id) = order_id {
                self.phase = Phase::ExitStatus { order_id: id };
                return ask(false, Request::QueryOrder { order_id: id });
            }
        }
        self.leave()
    }

    fn note_exit_report(&mut self, order_id: u64, facts: Option<OrderFacts>) -> (r: Step)
        requires
            old(self)@.base.ok(),
            old(self)@.state.ok(),
            old(self)@.state.position is Long,
            facts is Some ==> facts->0.ok(),
        ensures
            (final(self)@, r) == old(self)@.exit_reported(order_id, facts),
            final(self)@.ok(),
            keeps_to_cap(r.note),
            sized_well(r.note, final(self)@),
    {
        let f: OrderFacts = match facts {
            Some(f) => f,
            None => return self.leave(),
        };
        let avg_sell: i128 = if Tick::cannot_read(f) {
            self.base.market.price
        } else {
            self.filled_price(f)
        };
        let exec_qty: i128 = match f.executed {
            Some(q) => q,
            None => 0,
        };
        self.phase = Phase::ExitTrades { avg_sell, exec_qty };
        ask(false, Request::QueryTrades { order_id })
    }

    fn note_exit_fills(&mut self, trades: &Vec<MyTrade>, avg_sell: i128, exec_qty: i128) -> (r: Step)
        requires
            old(self)@.base.ok(),
            old(self)@.state.ok(),
            old(self)@.state.position is Long,
            bounded(avg_sell as int),
            bounded(exec_qty as int),
        ensures
            (final(self)@, r) == old(self)@.exit_charged(trades@, avg_sell, exec_qty),
            final(self)@.ok(),
            keeps_to_cap(r.note),
            sized_well(r.note, final(self)@),
    {
        self.note_fees(trades, avg_sell);
        if exec_qty > 0 {
            if let Position::Long { entry_price, .. } = self.state.position {
                let pnl: i128 = mul_fixed(avg_sell - entry_price, exec_qty);
                self.state.realized_pnl_usdt = saturate(self.state.realized_pnl_usdt + pnl);
            }
        }
        self.leave()
    }

    fn leave(&mut self) -> (r: Step)
        requires
            old(self)@.base.ok(),
            old(self)@.state.ok(),
            old(self)@.state.position is Long,
        ensures
            (final(self)@, r) == old(self)@.left(),
            final(self)@.ok(),
            keeps_to_cap(r.note),
            sized_well(r.note, final(self)@),
    {
        let mut note: Note = Note::Nothing;
        if let Position::Long { entry_time_ms, entry_price, qty, .. } = self.state.position {
            note = Note::Exited {
                entry_time_ms,
                entry_price,
                exit_price: self.base.market.price,
                qty,
            };
        }
        self.state.exit_to_flat_with_cooldown(self.base.market.now_ms);
        self.phase = Phase::Finished;
        Step { save: true, note, alert: Alert::Nothing, request: Request::WrapUp }
    }

    fn hold_position(&mut self, existing: Option<i128>) -> (r: Step)
        requires
            old(self)@.base.ok(),
            old(self)@.state.ok(),
            old(self)@.state.position is Long,
            existing is Some ==> bounded(existing->0 as int),
        ensures
            (final(self)@, r) == old(self)@.held(existing),
            final(self)@.ok(),
            keeps_to_cap(r.note),
            sized_well(r.note, final(self)@),
    {
        if !self.live() {
            return self.wrap(true);
        }
        if let Position::Long { stop_order_id: None, .. } = self.state.position {
            if self.base.wallet.btc_locked > BTC_DUST {
                self.phase = Phase::StopSearch { existing };
                return ask(false, Request::ListOpenOrders);
            }
        }
        self.guard(existing)
    }

    fn adopt_stop(&mut self, o: &OpenOrder)
        requires
            old(self)@.base.ok(),
            old(self)@.state.ok(),
            old(self)@.state.position is Long,
        ensures
            final(self)@ == old(self)@.with_state(old(self)@.adopted(*o)),
            final(self)@.state.ok(),
            final(self)@.state.position is Long,
    {
        match &o.stop_price {
            Some(text) => {
                if let Some(p) = parse_fixed(text.as_str()) {
                    self.state.set_stop_order(o.order_id, Some(p));
                }
            },
            None => {
                let last: Option<u64> = self.state.last_stop_order_id;
                self.state.set_stop_order(o.order_id, None);
                self.state.last_stop_order_id = last;
            },
        }
    }

    fn note_open_orders(&mut self, orders: &Option<Vec<OpenOrder>>, existing: Option<i128>) -> (r: Step)
        requires
            old(self)@.base.ok(),
            old(self)@.state.ok(),
            old(self)@.state.position is Long,
            existing is Some ==> bounded(existing->0 as int),
        ensures
            (final(self)@, r) == old(self)@.stops_listed(*orders, existing),
            final(self)@.ok(),
            keeps_to_cap(r.note),
            sized_well(r.note, final(self)@),
    {
        if let Some(list) = orders {
            if let Some(i) = latest_stop(list) {
                proof {
                    assert(is_latest_stop(list@, i as int));
                    let k = choose|k: int| is_latest_stop(list@, k);
                    assert(is_latest_stop(list@, k));
                    assert(is_working_stop(list@[k]) && is_working_stop(list@[i as int]));
                    assert(k == i);
                }
                self.adopt_stop(&list[i]);
            } else {
                assert forall|k: int| !is_latest_stop(list@, k) by {
                    if is_latest_stop(list@, k) {
                        assert(is_working_stop(list@[k]));
                    }
                }
            }
        }
        self.guard(existing)
    }

    fn guard(&mut self, existing: Option<i128>) -> (r: Step)
        requires
            old(self)@.base.ok(),
            old(self)@.state.ok(),
            old(self)@.state.position is Long,
            existing is Some ==> bounded(existing->0 as int),
        ensures
            (final(self)@, r) == old(self)@.guarded(existing),
            final(self)@.ok(),
            keeps_to_cap(r.note),
            sized_well(r.note, final(self)@),
    {
        if let Position::Long { qty, stop_price, stop_order_id, .. } = self.state.position {
            if qty > 0 && stop_price > 0 {
                let protect_qty: i128 = round_down_to_step(
                    min_fixed(qty, self.base.wallet.btc_total()),
                    self.base.market.step_size,
                );
                if protect_qty > 0 {
                    match stop_order_id {
                        None => return self.request_stop(protect_qty, stop_price),
                        Some(order_id) => {
                            let risen: bool = match existing {
                                Some(old_stop) => stop_price > old_stop
                                    + self.base.market.tick_size,
                                None => false,
                            };
                            if risen {
                                self.phase = Phase::StopCancel { protect_qty, stop: stop_price };
                                return ask(true, Request::CancelOrder { order_id });
                            }
                        },
                    }
                }
            }
        }
        self.wrap(true)
    }

    fn request_stop(&mut self, qty: i128, stop: i128) -> (r: Step)
        requires
            old(self)@.base.ok(),
            old(self)@.state.ok(),
            old(self)@.state.position is Long,
            bounded(stop as int),
        ensures
            (final(self)@, r) == old(self)@.stop_requested(qty, stop),
            final(self)@.ok(),
            keeps_to_cap(r.note),
            sized_well(r.note, final(self)@),
    {
        self.phase = Phase::StopPlace { stop };
        ask(
            true,
            Request::PlaceStop { qty, stop_price: stop, limit_price: Tick::stop_limit(stop) },
        )
    }

    /// Takes the outcome of the last action and says what comes next. See
    /// [`TickView::next`]. A buy that it sizes keeps to the cap.
    pub fn step(&mut self, event: Event) -> (r: Step)
        requires
            old(self)@.ok(),
            event.ok(),
        ensures
            (final(self)@, r) == old(self)@.next(event),
            final(self)@.ok(),
            keeps_to_cap(r.note),
            sized_well(r.note, final(self)@),
    {
        match (self.phase, event) {
            (Phase::PendingStatus { order_id }, Event::OrderInfo { facts }) => self.note_pending(
                order_id,
                facts,
            ),
            (Phase::OrphanCancel, Event::Canceled { result }) => {
                if result != CancelResult::Failed {
                    self.state.clear_last_stop_order_id();
                }
                self.settle()
            },
            (Phase::EmergencySell, Event::Sold { result }) => {
                if result == OrderResult::Failed {
                    return self.fail();
                }
                self.state.exit_to_flat_with_cooldown(self.base.market.now_ms);
                self.did_place_order = true;
                self.end_with(true, Decision::Sell, "Emergency sell. We flatten.")
            },
            (
                Phase::Buying { qty, stop },
                Event::Bought { result: OrderResult::Accepted { order_id } },
            ) => self.note_buy(qty, stop, order_id),
            (Phase::BuyStatus { order_id, qty, stop }, Event::OrderInfo { facts: Some(f) }) => {
                if Tick::cannot_read(f) {
                    return self.fail();
                }
                let executed: i128 = match f.executed {
                    Some(q) => q,
                    None => 0,
                };
                self.phase = Phase::BuyTrades {
                    entry_price: self.filled_price(f),
                    qty: if executed > 0 {
                        executed
                    } else {
                        qty
                    },
                    stop,
                };
                ask(false, Request::QueryTrades { order_id })
            },
            (Phase::BuyTrades { entry_price, qty, stop }, Event::Trades { trades }) => {
                self.note_fees(&trades, entry_price);
                self.enter(entry_price, qty, stop)
            },
            (Phase::EntryStop { qty, stop }, Event::StopPlaced { result }) => self.protect_entry(
                qty,
                stop,
                result,
            ),
            (Phase::PanicSell, Event::Sold { result }) => self.settle_panic(result),
            (Phase::StopStatus, Event::OrderInfo { facts }) => self.note_stop_report(facts),
            (Phase::ExitCancel { sell_qty }, Event::Canceled { .. }) => {
                self.state.clear_stop_order_id_in_position();
                self.phase = Phase::ExitSell;
                ask(true, Request::SellMarket { qty: sell_qty })
            },
            (Phase::ExitSell, Event::Sold { result }) => self.note_exit_order(result),
            (Phase::ExitStatus { order_id }, Event::OrderInfo { facts }) => self.note_exit_report(
                order_id,
                facts,
            ),
            (
                Phase::ExitTrades { avg_sell, exec_qty },
                Event::Trades { trades },
            ) => self.note_exit_fills(&trades, avg_sell, exec_qty),
            (Phase::StopSearch { existing }, Event::OpenOrders { orders }) => self.note_open_orders(
                &orders,
                existing,
            ),
            (Phase::StopCancel { protect_qty, stop }, Event::Canceled { .. }) => {
                self.state.clear_stop_order_id_in_position();
                self.request_stop(protect_qty, stop)
            },
            (Phase::StopPlace { stop }, Event::StopPlaced { result }) => {
                if let OrderResult::Accepted { order_id: Some(id) } = result {
                    self.note_protection(id, stop);
                }
                self.wrap(true)
            },
            _ => self.fail(),
        }
    }
}

/// Whether an action reads or moves something at the exchange that only a live
/// run may touch.
pub open spec fn live_only(r: Request) -> bool {
    match r {
        Request::CancelOrder { .. } => true,
        Request::QueryOrder { .. } => true,
        Request::QueryTrades { .. } => true,
        Request::PlaceStop { .. } => true,
        Request::ListOpenOrders => true,
        _ => false,
    }
}

/// Whether an action trades.
pub open spec fn trades(r: Request) -> bool {
    r is BuyMarket || r is SellMarket
}

impl TickView {
    /// Whether a practice run can get into this phase.
    pub open spec fn practice_phase(self) -> bool {
        match self.phase {
            Phase::Start => true,
            Phase::Buying { .. } => true,
            Phase::ExitSell => true,
            Phase::Finished => true,
            _ => false,
        }
    }
}

/// A practice run stays in its four phases and asks for nothing but market orders,
/// which its mode sends to the endpoint that executes nothing.
pub proof fn law_practice_asks_for_no_live_action(v: TickView, e: Event)
    requires
        !v.live(),
        v.practice_phase(),
    ensures
        v.phase == Phase::Start ==> !live_only(v.begun().1.request) && v.begun().0.practice_phase(),
        !live_only(v.next(e).1.request),
        v.next(e).0.practice_phase(),
        v.next(e).0.base == v.base,
{
}

/// A dead bot does not trade.
pub proof fn law_dead_bot_does_not_trade(v: TickView)
    requires
        v.state.is_dead,
    ensures
        v.gated().1.request == Request::Finish,
        v.gated().0.decision == Decision::Stop,
        v.gated().0.state == v.state,
{
}

/// Where a run stands after some events, and what it asked for last.
pub open spec fn after_events(v: TickView, events: Seq<Event>) -> (TickView, Step)
    decreases events.len(),
{
    if events.len() == 0 {
        v.begun()
    } else {
        after_events(v, events.drop_last()).0.next(events.last())
    }
}

/// Whatever happens during a practice run, it never asks for an action that only a
/// live run may take, and its mode stays what it is: every order that it sends goes to
/// the endpoint that executes nothing.
#[verifier::rlimit(60)]
pub proof fn law_practice_run_moves_no_money(v: TickView, events: Seq<Event>)
    requires
        !v.live(),
        v.phase == Phase::Start,
    ensures
        !live_only(after_events(v, events).1.request),
        !after_events(v, events).0.live(),
        endpoint_of(after_events(v, events).0.base.set.mode) == Endpoint::TestOrder,
        after_events(v, events).0.practice_phase(),
    decreases events.len(),
{
    if events.len() == 0 {
        law_practice_asks_for_no_live_action(v, Event::OrderInfo { facts: None });
    } else {
        law_practice_run_moves_no_money(v, events.drop_last());
        law_practice_asks_for_no_live_action(
            after_events(v, events.drop_last()).0,
            events.last(),
        );
    }
}

/// A dead bot stays dead and buys nothing.
pub open spec fn dead_and_idle(r: (TickView, Step)) -> bool {
    r.0.state.is_dead && !(r.1.request is BuyMarket)
}

proof fn lemma_dead_settled(v: TickView)
    requires
        v.state.is_dead,
    ensures
        dead_and_idle(v.settled()),
{
    law_dead_bot_does_not_trade(v);
    law_dead_bot_does_not_trade(v.with_state(v.taken_over()));
    law_dead_bot_does_not_trade(v.with_position(Position::Flat));
}

proof fn lemma_dead_reconciled(v: TickView)
    requires
        v.state.is_dead,
    ensures
        dead_and_idle(v.reconciled()),
{
    let gone = v.state.position is Long && !v.has_btc();
    let state = if gone {
        BotState {
            last_stop_order_id: if v.state.position->stop_order_id is Some {
                v.state.position->stop_order_id
            } else {
                v.state.last_stop_order_id
            },
            ..v.flattened()
        }
    } else {
        v.state
    };
    lemma_dead_settled(v.with_state(state));
}

proof fn lemma_dead_guarded(v: TickView, existing: Option<i128>)
    requires
        v.state.is_dead,
    ensures
        dead_and_idle(v.guarded(existing)),
        dead_and_idle(v.held(existing)),
{
}

proof fn lemma_dead_exit_checked(v: TickView, existing: Option<i128>)
    requires
        v.state.is_dead,
    ensures
        dead_and_idle(v.exit_checked(existing)),
{
    let j = v.judged();
    let after = TickView { why: j.reason, ..v.with_position(j.position) };
    lemma_dead_guarded(
        TickView { decision: Decision::HoldLong, reason: j.reason, ..after },
        existing,
    );
}

proof fn lemma_dead_stop_reported(v: TickView, facts: Option<OrderFacts>)
    requires
        v.state.is_dead,
    ensures
        dead_and_idle(v.stop_reported(facts)),
{
    match facts {
        None => lemma_dead_exit_checked(v, v.state.position->exchange_stop_price),
        Some(f) => if f.state != OrderState::Filled {
            let kept = if f.state == OrderState::Dead {
                without_stop_order(v.state.position)
            } else {
                v.state.position
            };
            let position = with_exchange_stop(kept, usable(f.stop));
            let existing = if f.stop is Some {
                f.stop
            } else {
                position->exchange_stop_price
            };
            lemma_dead_exit_checked(v.with_position(position), existing);
        },
    }
}

proof fn lemma_dead_pending(v: TickView, order_id: u64, facts: Option<OrderFacts>)
    requires
        v.state.is_dead,
    ensures
        dead_and_idle(v.pending_reported(order_id, facts)),
{
    lemma_dead_reconciled(
        v.with_state(
            BotState {
                pending_entry_order_id: None,
                pending_entry_stop_price: None,
                ..v.state
            },
        ),
    );
}

proof fn lemma_dead_entered(v: TickView, entry_price: i128, qty: i128, stop: i128)
    requires
        v.state.is_dead,
    ensures
        dead_and_idle(v.entered(entry_price, qty, stop)),
{
}

proof fn lemma_dead_stops_listed(
    v: TickView,
    orders: Option<Vec<OpenOrder>>,
    existing: Option<i128>,
)
    requires
        v.state.is_dead,
    ensures
        dead_and_idle(v.stops_listed(orders, existing)),
{
    lemma_dead_guarded(v, existing);
    if orders is Some && exists|i: int| is_latest_stop(orders->0@, i) {
        let i = choose|i: int| is_latest_stop(orders->0@, i);
        lemma_dead_guarded(v.with_state(v.adopted(orders->0@[i])), existing);
    }
}

proof fn lemma_dead_next(v: TickView, e: Event)
    requires
        v.state.is_dead,
    ensures
        dead_and_idle(v.next(e)),
{
    match (v.phase, e) {
        (Phase::PendingStatus { order_id }, Event::OrderInfo { facts }) => {
            lemma_dead_pending(v, order_id, facts);
        },
        (Phase::OrphanCancel, Event::Canceled { .. }) => {
            lemma_dead_settled(v);
            lemma_dead_settled(v.with_state(BotState { last_stop_order_id: None, ..v.state }));
        },
        (
            Phase::Buying { qty, stop },
            Event::Bought { result: OrderResult::Accepted { .. } },
        ) => {
            let after = TickView {
                did_place_order: true,
                decision: Decision::EnterLong,
                reason: v.why,
                ..v
            };
            lemma_dead_entered(after, v.base.market.price, qty, stop);
        },
        (Phase::BuyTrades { entry_price, qty, stop }, Event::Trades { trades }) => {
            lemma_dead_entered(
                v.with_state(v.charged(trades@, entry_price as int)),
                entry_price,
                qty,
                stop,
            );
        },
        (Phase::StopStatus, Event::OrderInfo { facts }) => {
            lemma_dead_stop_reported(v, facts);
        },
        (Phase::StopSearch { existing }, Event::OpenOrders { orders }) => {
            lemma_dead_stops_listed(v, orders, existing);
        },
        _ => {},
    }
}

/// Whatever happens during the run of a dead bot, it stays dead and buys nothing.
pub proof fn law_dead_bot_never_buys(v: TickView, events: Seq<Event>)
    requires
        v.state.is_dead,
    ensures
        dead_and_idle(after_events(v, events)),
    decreases events.len(),
{
    if events.len() > 0 {
        law_dead_bot_never_buys(v, events.drop_last());
        lemma_dead_next(after_events(v, events.drop_last()).0, events.last());
    } else {
        lemma_dead_reconciled(v);
    }
}

/// A bot that sleeps or pauses after an exit does not trade.
pub proof fn law_resting_bot_does_not_trade(v: TickView)
    requires
        v.base.market.now_ms < v.state.hibernation_until_ms || v.base.market.now_ms
            < v.state.cooldown_until_ms,
    ensures
        v.gated().1.request == Request::Finish,
        v.gated().0.state == v.state,
{
}

/// Nothing is bought on old data or after the last trade of the day.
pub proof fn law_no_entry_on_old_data_or_past_the_daily_limit(v: TickView)
    requires
        v.base.market.stale_any || v.state.trades_today >= v.base.set.max_trades_per_day,
    ensures
        v.entry_planned().1.request == Request::Finish,
        v.entry_planned().0.state == v.state,
{
}

/// Where the one-hour averages are stacked downwards, nothing is bought.
pub proof fn law_no_entry_against_the_trend(v: TickView)
    requires
        v.base.reading.bearish_bias,
    ensures
        !trades(v.entry_planned().1.request),
{
    reveal(TickView::signal);
}

/// A live buy is noted as pending, with its stop, before its fill is asked for;
/// while the fill is not known the note stays, and the next run clears it up
/// before anything else.
pub proof fn law_pending_buy_is_not_lost(v: TickView, qty: i128, stop: i128, order_id: u64)
    requires
        v.live(),
        v.phase == (Phase::Buying { qty, stop }),
    ensures
        ({
            let (after, step) = v.next(
                Event::Bought { result: OrderResult::Accepted { order_id: Some(order_id) } },
            );
            let (missed, fail) = after.next(Event::OrderInfo { facts: None });
            &&& step.save
            &&& step.request == (Request::QueryOrder { order_id })
            &&& after.state.pending_entry_order_id == Some(order_id)
            &&& after.state.pending_entry_stop_price == Some(stop)
            &&& fail.request == Request::Fail
            &&& missed.state == after.state
            &&& missed.begun().1.request == (Request::QueryOrder { order_id })
        }),
{
}

/// A buy whose fill became known is the position, and is no longer pending.
pub proof fn law_filled_buy_is_the_position(
    v: TickView,
    entry_price: i128,
    qty: i128,
    stop: i128,
    trades: Vec<MyTrade>,
)
    requires
        v.phase == (Phase::BuyTrades { entry_price, qty, stop }),
    ensures
        ({
            let after = v.next(Event::Trades { trades }).0;
            &&& after.state.pending_entry_order_id is None
            &&& after.state.position is Long
            &&& after.state.position->entry_price == entry_price
            &&& after.state.position->Long_qty == qty
            &&& after.state.position->stop_price == stop
        }),
{
}

/// A new live position is never left without protection: either the exchange holds
/// its stop, or it is sold. Where it is less than one step it cannot be sold: the books
/// still show it, and the operator hears of it.
pub proof fn law_unprotected_position_is_sold(v: TickView, qty: i128, stop: i128, r: OrderResult)
    requires
        v.phase == (Phase::EntryStop { qty, stop }),
        v.state.position is Long,
    ensures
        ({
            let (after, step) = v.next(Event::StopPlaced { result: r });
            match r {
                OrderResult::Accepted { order_id: Some(id) } => after.state.position->stop_order_id
                    == Some(id),
                _ => if step_down(qty as int, v.base.market.step_size as int) > 0 {
                    step.request is SellMarket && after.state == v.state && after.phase
                        == Phase::PanicSell
                } else {
                    step.alert == Alert::PanicFlattenFailed && after.state == v.state
                },
            }
        }),
{
}

/// Where the sale of an unprotected position fails, the books still show the
/// position; only an accepted sale closes it.
pub proof fn law_failed_panic_sale_keeps_the_position(v: TickView, r: OrderResult)
    requires
        v.phase == Phase::PanicSell,
    ensures
        ({
            let (after, step) = v.next(Event::Sold { result: r });
            &&& (r == OrderResult::Failed ==> after.state == v.state && step.alert
                == Alert::PanicFlattenFailed)
            &&& (r is Accepted ==> after.state.position == Position::Flat && step.alert
                == Alert::PanicFlattened)
        }),
{
}

/// A position is only sold after its own stop order was canceled.
pub proof fn law_stop_is_canceled_before_the_sale(v: TickView, existing: Option<i128>)
    requires
        v.live(),
        v.state.position is Long,
        v.state.position->stop_order_id is Some,
    ensures
        !(v.exit_checked(existing).1.request is SellMarket),
{
}

/// The stop at the exchange is only replaced by a higher one.
pub proof fn law_stop_is_only_replaced_upwards(v: TickView, existing: Option<i128>)
    requires
        v.state.position is Long,
        v.state.position->stop_order_id is Some,
        v.base.market.tick_size >= 0,
        v.guarded(existing).1.request is CancelOrder,
    ensures
        existing is Some,
        v.state.position->stop_price > existing->0,
{
}

/// A run that is over stays over: any further event fails it and changes nothing.
pub proof fn law_finished_run_stays_finished(v: TickView, e: Event)
    requires
        v.phase == Phase::Finished,
    ensures
        v.next(e).0 == v,
        v.next(e).1.request == Request::Fail,
{
}

/// Only an event that the run waits for can make it trade or touch its state.
pub proof fn law_unexpected_event_changes_nothing(v: TickView, e: Event)
    requires
        v.phase is Buying,
        !(e is Bought),
    ensures
        v.next(e).0.state == v.state,
        v.next(e).1.request == Request::Fail,
{
}

/// Every sale that the exchange accepted counts as an order of the run.
pub proof fn law_accepted_sale_is_an_order(v: TickView, order_id: Option<u64>)
    requires
        v.phase is EmergencySell || v.phase is PanicSell || v.phase is ExitSell,
    ensures
        v.next(Event::Sold { result: OrderResult::Accepted { order_id } }).0.did_place_order,
{
}

/// A buy is asked for only with the note of its size, and for the quantity that the
/// note tells of.
pub proof fn law_buy_is_sized(v: TickView)
    requires
        v.entry_planned().1.request is BuyMarket,
    ensures
        v.entry_planned().1.note is Sized,
        v.entry_planned().1.request == (Request::BuyMarket {
            qty: v.entry_planned().1.note->Sized_qty,
        }),
{
}

/// Leaving a position in a range books no loss: the price has earned the fees and the
/// slippage of both ways.
pub proof fn law_range_exit_earns_its_costs(t: TickView)
    requires
        t.state.position is Long,
        t.range_done(t.state.position->entry_price as int),
        0 <= t.state.position->entry_price <= LIMIT,
        0 <= t.base.set.taker_fee_bps <= LIMIT,
        0 <= t.base.set.slippage_bps <= LIMIT,
    ensures
        t.costs_earned(t.state.position->entry_price as int),
        t.base.market.price >= t.state.position->entry_price,
{
    let entry = t.state.position->entry_price as int;
    let costs = 2 * (t.base.set.taker_fee_bps + t.base.set.slippage_bps);
    assert(entry * (10_000 * ONE) <= entry * (10_000 * ONE + costs)) by (nonlinear_arith)
        requires
            entry >= 0,
            costs >= 0,
    ;
    let price = t.base.market.price as int;
    assert(entry <= price) by (nonlinear_arith)
        requires
            entry * (10_000 * ONE) <= price * (10_000 * ONE),
    ;
}

} // verus!
