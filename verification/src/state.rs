//! The state that the bot keeps between runs: its equity, its position and the
//! limits that hold it back.
use crate::clock::{day_text, today_utc, unix_ms, Day};
use crate::fixed::{
    bounded, div_round, lemma_round_div_bounds, max_fixed, max_of, none_or_within, round_div,
    saturate, saturated, within, LIMIT,
};
use crate::text::same_text;
use vstd::prelude::*;

verus! {

/// Hours in milliseconds.
pub fn ms(hours: u64) -> (r: u64)
    requires
        hours * 3_600_000 <= u64::MAX,
    ensures
        r == hours * 3_600_000,
{
    hours * 3_600_000
}

/// Minutes in milliseconds.
pub fn ms_minutes(minutes: u64) -> (r: u64)
    requires
        minutes * 60_000 <= u64::MAX,
    ensures
        r == minutes * 60_000,
{
    minutes * 60_000
}

/// The milliseconds since the Unix epoch, `None` where the system clock stands
/// before it. Any count may come back.
pub fn now_ms() -> Option<u64> {
    unix_ms()
}

/// Today's date in UTC as `yyyymmdd`.
pub fn today_yyyymmdd_utc() -> (s: String)
    ensures
        exists|d: Day| d.ok() && s@ == #[trigger] day_text(d),
{
    today_utc()
}

/// What the bot holds.
#[derive(Clone, Copy, Debug, PartialEq, Eq, Structural)]
pub enum Position {
    Flat,
    /// Coins that the bot did not buy. It does not manage them.
    ExternalInventory { btc_qty: i128, detected_time_ms: u64 },
    Long {
        entry_price: i128,
        qty: i128,
        initial_stop_price: i128,
        stop_price: i128,
        tp_price: Option<i128>,
        peak_price: i128,
        entry_time_ms: u64,
        last_peak_time_ms: u64,
        stop_order_id: Option<u64>,
        exchange_stop_price: Option<i128>,
    },
}

impl Position {
    /// Every price of the position is within the range of the arithmetic.
    pub open spec fn ok(self) -> bool {
        match self {
            Position::Flat => true,
            Position::ExternalInventory { btc_qty, .. } => bounded(btc_qty as int),
            Position::Long {
                entry_price,
                qty,
                initial_stop_price,
                stop_price,
                tp_price,
                peak_price,
                exchange_stop_price,
                ..
            } => {
                &&& bounded(entry_price as int)
                &&& bounded(qty as int)
                &&& bounded(initial_stop_price as int)
                &&& bounded(stop_price as int)
                &&& tp_price is Some ==> bounded(tp_price->0 as int)
                &&& bounded(peak_price as int)
                &&& exchange_stop_price is Some ==> bounded(exchange_stop_price->0 as int)
            },
        }
    }

    /// Whether every price of the position is within the range of the arithmetic.
    pub fn in_range(&self) -> (r: bool)
        ensures
            r == self.ok(),
    {
        match self {
            Position::Flat => true,
            Position::ExternalInventory { btc_qty, .. } => within(*btc_qty),
            Position::Long {
                entry_price,
                qty,
                initial_stop_price,
                stop_price,
                tp_price,
                peak_price,
                exchange_stop_price,
                ..
            } => within(*entry_price) && within(*qty) && within(*initial_stop_price) && within(
                *stop_price,
            ) && none_or_within(*tp_price) && within(*peak_price) && none_or_within(
                *exchange_stop_price,
            ),
        }
    }
}

impl Default for Position {
    fn default() -> (p: Position)
        ensures
            p == Position::Flat,
    {
        Position::Flat
    }
}

/// Whether an open position is kept.
#[derive(Clone, Copy, Debug, PartialEq, Eq, Structural)]
pub enum PositionDecision {
    Hold,
    ExitLong,
}

/// The state of the bot.
#[derive(Debug)]
pub struct BotState {
    pub starting_usdt: i128,
    pub realized_pnl_usdt: i128,
    /// The equity that death at -20% and the unlock at +20% are measured from.
    pub start_equity_usdt: i128,
    pub profit_unlocked: bool,
    pub anchor_bumps: u32,
    pub risk_reduction_until_ms: u64,
    pub equity_usdt: i128,
    pub fees_usdt: i128,
    pub is_dead: bool,
    pub peak_equity_usdt: i128,
    pub position: Position,
    pub last_stop_order_id: Option<u64>,
    pub cooldown_until_ms: u64,
    pub hibernation_until_ms: u64,
    pub daily_loss_start_equity_usdt: i128,
    pub day_anchor_yyyymmdd: String,
    pub trades_today: u32,
    pub session_start_equity_usdt: i128,
    pub session_pnl_usdt: i128,
    pub last_auth_error_ms: u64,
    pub auth_error_cooldown_ms: u64,
    /// A buy that was placed but whose fill is not known yet.
    pub pending_entry_order_id: Option<u64>,
    /// The stop that was decided for that buy.
    pub pending_entry_stop_price: Option<i128>,
}

/// The state of a bot that starts with `starting_usdt` on a day.
pub open spec fn fresh_state(starting_usdt: i128, s: BotState) -> bool {
    s == (BotState {
        starting_usdt,
        realized_pnl_usdt: 0,
        start_equity_usdt: starting_usdt,
        profit_unlocked: false,
        anchor_bumps: 0,
        risk_reduction_until_ms: 0,
        equity_usdt: starting_usdt,
        fees_usdt: 0,
        is_dead: false,
        peak_equity_usdt: starting_usdt,
        position: Position::Flat,
        last_stop_order_id: None,
        cooldown_until_ms: 0,
        hibernation_until_ms: 0,
        daily_loss_start_equity_usdt: starting_usdt,
        day_anchor_yyyymmdd: s.day_anchor_yyyymmdd,
        trades_today: 0,
        session_start_equity_usdt: starting_usdt,
        session_pnl_usdt: 0,
        last_auth_error_ms: 0,
        auth_error_cooldown_ms: 0,
        pending_entry_order_id: None,
        pending_entry_stop_price: None,
    })
}

impl Default for BotState {
    /// The state of a bot without money, today.
    fn default() -> (s: BotState)
        ensures
            fresh_state(0, s),
            exists|d: Day| d.ok() && s.day_anchor_yyyymmdd@ == #[trigger] day_text(d),
    {
        BotState::new(0)
    }
}

/// What managing a position comes to: the position after it, the decision and the
/// reason.
pub struct Managed {
    pub position: Position,
    pub decision: PositionDecision,
    pub reason: Seq<char>,
}

/// Whether the trailing stop is armed: the price has gained the risk of the entry
/// (half of it where the one-hour averages are stacked downwards).
pub open spec fn trail_armed(
    entry_price: int,
    initial_stop_price: int,
    price: int,
    bearish_bias: bool,
) -> bool {
    let r = max_of(entry_price - initial_stop_price, 1);
    if bearish_bias {
        2 * price >= 2 * entry_price + r
    } else {
        price >= entry_price + r
    }
}

/// The trailing stop: 2.2 average true ranges under the peak, 1.5 where the
/// one-hour averages are stacked downwards.
pub open spec fn trail_price(peak_price: int, atr14_5m: int, bearish_bias: bool) -> int {
    peak_price - round_div(
        (if bearish_bias {
            15int
        } else {
            22
        }) * max_of(atr14_5m, 1),
        10,
    )
}

/// What managing a position comes to. A take-profit that is reached comes first.
/// Otherwise the peak follows the price up, the stop follows the peak once the
/// trail is armed, and the position is left where the price is at the stop or
/// where no new peak came for two hours (one where the one-hour averages are
/// stacked downwards).
pub open spec fn managed(
    position: Position,
    price: int,
    atr14_5m: int,
    now_ms: u64,
    bearish_bias: bool,
) -> Managed {
    match position {
        Position::Flat => Managed {
            position,
            decision: PositionDecision::Hold,
            reason: "No position."@,
        },
        Position::ExternalInventory { .. } => Managed {
            position,
            decision: PositionDecision::Hold,
            reason: "External inventory present. Bot will not manage it automatically."@,
        },
        Position::Long {
            entry_price,
            qty,
            initial_stop_price,
            stop_price,
            tp_price,
            peak_price,
            entry_time_ms,
            last_peak_time_ms,
            stop_order_id,
            exchange_stop_price,
        } => {
            if tp_price is Some && price >= tp_price->0 {
                Managed {
                    position,
                    decision: PositionDecision::ExitLong,
                    reason: "Take-profit hit. We exit with glory."@,
                }
            } else {
                let peak = max_of(price, peak_price as int);
                let peak_time = if price > peak_price {
                    now_ms
                } else {
                    last_peak_time_ms
                };
                let stop = if trail_armed(
                    entry_price as int,
                    initial_stop_price as int,
                    price,
                    bearish_bias,
                ) {
                    max_of(trail_price(peak, atr14_5m, bearish_bias), stop_price as int)
                } else {
                    stop_price as int
                };
                let after = Position::Long {
                    entry_price,
                    qty,
                    initial_stop_price,
                    stop_price: stop as i128,
                    tp_price,
                    peak_price: peak as i128,
                    entry_time_ms,
                    last_peak_time_ms: peak_time,
                    stop_order_id,
                    exchange_stop_price,
                };
                if price <= stop {
                    Managed {
                        position: after,
                        decision: PositionDecision::ExitLong,
                        reason: "Stop hit. We exit to protect you."@,
                    }
                } else if now_ms - peak_time > (if bearish_bias {
                    3_600_000int
                } else {
                    7_200_000
                }) {
                    Managed {
                        position: after,
                        decision: PositionDecision::ExitLong,
                        reason: if bearish_bias {
                            "HTF bearish — exiting after 1h without new highs. Protecting capital."@
                        } else {
                            "Too long with no new highs. We exit."@
                        },
                    }
                } else {
                    Managed {
                        position: after,
                        decision: PositionDecision::Hold,
                        reason: "We hold the position."@,
                    }
                }
            }
        },
    }
}

impl BotState {
    /// Every amount of the state is within the range of the arithmetic.
    pub open spec fn ok(self) -> bool {
        &&& bounded(self.starting_usdt as int)
        &&& bounded(self.realized_pnl_usdt as int)
        &&& bounded(self.start_equity_usdt as int)
        &&& bounded(self.equity_usdt as int)
        &&& bounded(self.fees_usdt as int)
        &&& bounded(self.peak_equity_usdt as int)
        &&& self.position.ok()
        &&& bounded(self.daily_loss_start_equity_usdt as int)
        &&& bounded(self.session_start_equity_usdt as int)
        &&& bounded(self.session_pnl_usdt as int)
        &&& self.pending_entry_stop_price is Some ==> bounded(
            self.pending_entry_stop_price->0 as int,
        )
    }

    /// Whether every amount of the state is within the range of the arithmetic.
    pub fn in_range(&self) -> (r: bool)
        ensures
            r == self.ok(),
    {
        within(self.starting_usdt) && within(self.realized_pnl_usdt) && within(
            self.start_equity_usdt,
        ) && within(self.equity_usdt) && within(self.fees_usdt) && within(self.peak_equity_usdt)
            && self.position.in_range() && within(self.daily_loss_start_equity_usdt) && within(
            self.session_start_equity_usdt,
        ) && within(self.session_pnl_usdt) && none_or_within(self.pending_entry_stop_price)
    }

    /// A bot that starts with `starting_usdt` on the given day.
    pub fn new_on(starting_usdt: i128, today: String) -> (s: BotState)
        ensures
            fresh_state(starting_usdt, s),
            s.day_anchor_yyyymmdd@ == today@,
    {
        BotState {
            starting_usdt,
            realized_pnl_usdt: 0,
            start_equity_usdt: starting_usdt,
            profit_unlocked: false,
            anchor_bumps: 0,
            risk_reduction_until_ms: 0,
            equity_usdt: starting_usdt,
            fees_usdt: 0,
            is_dead: false,
            peak_equity_usdt: starting_usdt,
            position: Position::Flat,
            last_stop_order_id: None,
            cooldown_until_ms: 0,
            hibernation_until_ms: 0,
            daily_loss_start_equity_usdt: starting_usdt,
            day_anchor_yyyymmdd: today,
            trades_today: 0,
            session_start_equity_usdt: starting_usdt,
            session_pnl_usdt: 0,
            last_auth_error_ms: 0,
            auth_error_cooldown_ms: 0,
            pending_entry_order_id: None,
            pending_entry_stop_price: None,
        }
    }

    /// A bot that starts with `starting_usdt` today.
    pub fn new(starting_usdt: i128) -> (s: BotState)
        ensures
            fresh_state(starting_usdt, s),
            exists|d: Day| d.ok() && s.day_anchor_yyyymmdd@ == #[trigger] day_text(d),
    {
        let today: String = today_yyyymmdd_utc();
        BotState::new_on(starting_usdt, today)
    }

    /// What [`BotState::sync_equity_and_day_on`] makes of the state.
    pub open spec fn synced(self, equity: i128, today: Seq<char>, after: BotState) -> bool {
        let start = if self.start_equity_usdt <= 0 {
            equity
        } else {
            self.start_equity_usdt
        };
        let peak = if self.peak_equity_usdt <= 0 {
            equity
        } else {
            max_of(equity as int, self.peak_equity_usdt as int) as i128
        };
        let session_start = if self.session_start_equity_usdt <= 0 {
            equity
        } else {
            self.session_start_equity_usdt
        };
        let new_day = self.day_anchor_yyyymmdd@ != today;
        &&& after.day_anchor_yyyymmdd@ == today
        &&& after == (BotState {
            equity_usdt: equity,
            start_equity_usdt: start,
            peak_equity_usdt: peak,
            day_anchor_yyyymmdd: after.day_anchor_yyyymmdd,
            daily_loss_start_equity_usdt: if new_day {
                equity
            } else {
                self.daily_loss_start_equity_usdt
            },
            hibernation_until_ms: if new_day {
                0
            } else {
                self.hibernation_until_ms
            },
            trades_today: if new_day {
                0
            } else {
                self.trades_today
            },
            is_dead: self.is_dead || equity <= 0,
            session_start_equity_usdt: session_start,
            session_pnl_usdt: saturated(equity - session_start) as i128,
            ..self
        })
    }

    /// Takes over the current equity. On a new day the daily loss is measured
    /// from it, hibernation ends and the count of trades starts over.
    pub fn sync_equity_and_day_on(&mut self, equity_usdt: i128, today: String)
        requires
            bounded(equity_usdt as int),
            bounded(old(self).session_start_equity_usdt as int),
        ensures
            old(self).synced(equity_usdt, today@, *final(self)),
            old(self).ok() ==> final(self).ok(),
    {
        self.equity_usdt = equity_usdt;
        if self.start_equity_usdt <= 0 {
            self.start_equity_usdt = equity_usdt;
        }
        if self.peak_equity_usdt <= 0 {
            self.peak_equity_usdt = equity_usdt;
        }
        if equity_usdt > self.peak_equity_usdt {
            self.peak_equity_usdt = equity_usdt;
        }
        if !same_text(self.day_anchor_yyyymmdd.as_str(), today.as_str()) {
            self.day_anchor_yyyymmdd = today;
            self.daily_loss_start_equity_usdt = equity_usdt;
            self.hibernation_until_ms = 0;
            self.trades_today = 0;
        }
        if self.equity_usdt <= 0 {
            self.is_dead = true;
        }
        if self.session_start_equity_usdt <= 0 {
            self.session_start_equity_usdt = equity_usdt;
        }
        self.session_pnl_usdt = saturate(self.equity_usdt - self.session_start_equity_usdt);
    }

    /// Takes over the current equity today. See
    /// [`BotState::sync_equity_and_day_on`].
    pub fn sync_equity_and_day(&mut self, equity_usdt: i128)
        requires
            bounded(equity_usdt as int),
            bounded(old(self).session_start_equity_usdt as int),
        ensures
            exists|d: Day| d.ok() && old(self).synced(equity_usdt, #[trigger] day_text(d), *final(self)),
            old(self).ok() ==> final(self).ok(),
    {
        let today: String = today_yyyymmdd_utc();
        self.sync_equity_and_day_on(equity_usdt, today);
    }

    /// Counts one more trade today.
    pub fn bump_trades_today(&mut self)
        ensures
            *final(self) == (BotState {
                trades_today: if old(self).trades_today == u32::MAX {
                    u32::MAX
                } else {
                    (old(self).trades_today + 1) as u32
                },
                ..*old(self)
            }),
    {
        self.trades_today = self.trades_today.saturating_add(1);
    }

    /// Whether the pause after an exit is still running.
    pub fn in_cooldown(&self, now_ms: u64) -> (r: bool)
        ensures
            r == (now_ms < self.cooldown_until_ms),
    {
        now_ms < self.cooldown_until_ms
    }

    /// Whether the bot sleeps.
    pub fn in_hibernation(&self, now_ms: u64) -> (r: bool)
        ensures
            r == (now_ms < self.hibernation_until_ms),
    {
        now_ms < self.hibernation_until_ms
    }

    /// When the pause after a refused authentication ends.
    pub open spec fn auth_cooldown_end(self) -> int {
        if self.last_auth_error_ms + self.auth_error_cooldown_ms > u64::MAX {
            u64::MAX as int
        } else {
            self.last_auth_error_ms + self.auth_error_cooldown_ms
        }
    }

    /// Whether the pause after a refused authentication is still running.
    pub fn in_auth_cooldown(&self, now_ms: u64) -> (r: bool)
        ensures
            r == (now_ms < self.auth_cooldown_end()),
    {
        now_ms < self.last_auth_error_ms.saturating_add(self.auth_error_cooldown_ms)
    }

    /// Books a fee. The amounts stay within the range of the arithmetic. A bot whose
    /// equity is gone is dead.
    pub fn apply_fee(&mut self, fee_usdt: i128)
        requires
            bounded(fee_usdt as int),
            bounded(old(self).fees_usdt as int),
            bounded(old(self).equity_usdt as int),
        ensures
            *final(self) == (BotState {
                fees_usdt: saturated(old(self).fees_usdt + fee_usdt) as i128,
                equity_usdt: saturated(old(self).equity_usdt - fee_usdt) as i128,
                is_dead: old(self).is_dead || old(self).equity_usdt - fee_usdt <= 0,
                ..*old(self)
            }),
            old(self).ok() ==> final(self).ok(),
            bounded(old(self).fees_usdt + fee_usdt) && bounded(old(self).equity_usdt - fee_usdt) ==> {
                &&& final(self).fees_usdt - old(self).fees_usdt == fee_usdt
                &&& final(self).equity_usdt + fee_usdt == old(self).equity_usdt
            },
            final(self).is_dead <==> old(self).is_dead || old(self).equity_usdt <= fee_usdt,
    {
        self.fees_usdt = saturate(self.fees_usdt + fee_usdt);
        self.equity_usdt = saturate(self.equity_usdt - fee_usdt);
        if self.equity_usdt <= 0 {
            self.is_dead = true;
        }
    }

    /// Records a new long position. Its stop order is not placed yet.
    pub fn enter_long(
        &mut self,
        entry_price: i128,
        qty: i128,
        stop_price: i128,
        tp_price: Option<i128>,
        now_ms: u64,
    )
        ensures
            *final(self) == (BotState {
                position: opened(entry_price, qty, stop_price, tp_price, now_ms),
                last_stop_order_id: None,
                ..*old(self)
            }),
    {
        self.position = Position::Long {
            entry_price,
            qty,
            initial_stop_price: stop_price,
            stop_price,
            tp_price,
            peak_price: entry_price,
            entry_time_ms: now_ms,
            last_peak_time_ms: now_ms,
            stop_order_id: None,
            exchange_stop_price: None,
        };
        self.last_stop_order_id = None;
    }

    /// Whether the equity has just fallen to 80% of the anchor, and whether it
    /// stands at 120% of it or more.
    pub open spec fn life_signs(self, equity: int) -> (bool, bool) {
        if self.is_dead || self.start_equity_usdt <= 0 {
            (false, false)
        } else if 10 * equity <= 8 * self.start_equity_usdt {
            (true, false)
        } else {
            (false, 10 * equity >= 12 * self.start_equity_usdt)
        }
    }

    /// Measures the equity against the anchor: at 80% of it the bot dies, at 120%
    /// its profit is unlocked. Without an anchor the equity becomes the anchor.
    /// The result says whether it died now and whether the profit is unlocked now.
    pub fn eval_death_and_unlock(&mut self, equity_usdt: i128, _now_ms: u64) -> (r: (bool, bool))
        requires
            bounded(equity_usdt as int),
            bounded(old(self).start_equity_usdt as int),
        ensures
            r == old(self).life_signs(equity_usdt as int),
            *final(self) == (BotState {
                start_equity_usdt: if !old(self).is_dead && old(self).start_equity_usdt <= 0 {
                    equity_usdt
                } else {
                    old(self).start_equity_usdt
                },
                is_dead: old(self).is_dead || r.0,
                profit_unlocked: old(self).profit_unlocked || r.1,
                ..*old(self)
            }),
            r.0 <==> !old(self).is_dead && old(self).start_equity_usdt > 0 && 5 * equity_usdt <= 4
                * old(self).start_equity_usdt,
            r.1 <==> !old(self).is_dead && old(self).start_equity_usdt > 0 && 5 * equity_usdt >= 6
                * old(self).start_equity_usdt,
            !(r.0 && r.1),
    {
        if self.is_dead {
            return (false, false);
        }
        if self.start_equity_usdt <= 0 {
            self.start_equity_usdt = equity_usdt;
            return (false, false);
        }
        let died_now: bool = 10 * equity_usdt <= 8 * self.start_equity_usdt;
        if died_now {
            self.is_dead = true;
            return (true, false);
        }
        let unlocked_now: bool = 10 * equity_usdt >= 12 * self.start_equity_usdt;
        if unlocked_now {
            self.profit_unlocked = true;
        }
        (false, unlocked_now)
    }

    /// Records the protective stop order of the position. A stop price of `None`
    /// is no number; it, and one that is not positive, leaves the known exchange
    /// price as it is.
    pub fn set_stop_order(&mut self, order_id: u64, stop_price: Option<i128>)
        ensures
            *final(self) == (BotState {
                position: with_stop_order(old(self).position, Some(order_id), usable(stop_price)),
                last_stop_order_id: Some(order_id),
                ..*old(self)
            }),
    {
        if let Position::Long {
            entry_price,
            qty,
            initial_stop_price,
            stop_price: current_stop,
            tp_price,
            peak_price,
            entry_time_ms,
            last_peak_time_ms,
            stop_order_id: _,
            exchange_stop_price,
        } = self.position {
            self.position = Position::Long {
                entry_price,
                qty,
                initial_stop_price,
                stop_price: current_stop,
                tp_price,
                peak_price,
                entry_time_ms,
                last_peak_time_ms,
                stop_order_id: Some(order_id),
                exchange_stop_price: match stop_price {
                    Some(p) => if p > 0 {
                        Some(p)
                    } else {
                        exchange_stop_price
                    },
                    None => exchange_stop_price,
                },
            };
        }
        self.last_stop_order_id = Some(order_id);
    }

    /// Forgets the protective stop order of the position.
    pub fn clear_stop_order_id_in_position(&mut self)
        ensures
            *final(self) == (BotState {
                position: without_stop_order(old(self).position),
                ..*old(self)
            }),
    {
        if let Position::Long {
            entry_price,
            qty,
            initial_stop_price,
            stop_price,
            tp_price,
            peak_price,
            entry_time_ms,
            last_peak_time_ms,
            ..
        } = self.position {
            self.position = Position::Long {
                entry_price,
                qty,
                initial_stop_price,
                stop_price,
                tp_price,
                peak_price,
                entry_time_ms,
                last_peak_time_ms,
                stop_order_id: None,
                exchange_stop_price: None,
            };
        }
    }

    /// Takes over the stop price that the exchange reports, where it is a positive
    /// number and there is a position.
    pub fn set_exchange_stop_price_from_exchange(&mut self, stop_price: Option<i128>)
        ensures
            *final(self) == (BotState {
                position: with_exchange_stop(old(self).position, usable(stop_price)),
                ..*old(self)
            }),
    {
        if let Some(p) = stop_price {
            if p > 0 {
                if let Position::Long {
                    entry_price,
                    qty,
                    initial_stop_price,
                    stop_price: current_stop,
                    tp_price,
                    peak_price,
                    entry_time_ms,
                    last_peak_time_ms,
                    stop_order_id,
                    exchange_stop_price: _,
                } = self.position {
                    self.position = Position::Long {
                        entry_price,
                        qty,
                        initial_stop_price,
                        stop_price: current_stop,
                        tp_price,
                        peak_price,
                        entry_time_ms,
                        last_peak_time_ms,
                        stop_order_id,
                        exchange_stop_price: Some(p),
                    };
                }
            }
        }
    }

    /// Forgets the last stop order.
    pub fn clear_last_stop_order_id(&mut self)
        ensures
            *final(self) == (BotState { last_stop_order_id: None, ..*old(self) }),
    {
        self.last_stop_order_id = None;
    }

    /// Leaves the position and pauses for an hour.
    pub fn exit_to_flat_with_cooldown(&mut self, now_ms: u64)
        requires
            now_ms + 3_600_000 <= u64::MAX,
        ensures
            *final(self) == (BotState {
                position: Position::Flat,
                cooldown_until_ms: (now_ms + 3_600_000) as u64,
                ..*old(self)
            }),
    {
        self.position = Position::Flat;
        self.cooldown_until_ms = now_ms + ms_minutes(60);
    }

    /// Manages the open position for this moment. See [`managed`].
    pub fn manage_open_position(
        &mut self,
        current_price: i128,
        atr14_5m: i128,
        now_ms: u64,
        bearish_bias: bool,
    ) -> (r: (PositionDecision, String))
        requires
            old(self).position.ok(),
            bounded(current_price as int),
            bounded(atr14_5m as int),
        ensures
            ({
                let m = managed(
                    old(self).position,
                    current_price as int,
                    atr14_5m as int,
                    now_ms,
                    bearish_bias,
                );
                &&& r.0 == m.decision
                &&& r.1@ == m.reason
                &&& *final(self) == (BotState { position: m.position, ..*old(self) })
            }),
            final(self).position.ok(),
    {
        match self.position {
            Position::Flat => (PositionDecision::Hold, String::from_str("No position.")),
            Position::ExternalInventory { .. } => (
                PositionDecision::Hold,
                String::from_str(
                    "External inventory present. Bot will not manage it automatically.",
                ),
            ),
            Position::Long {
                entry_price,
                qty,
                initial_stop_price,
                stop_price,
                tp_price,
                peak_price,
                entry_time_ms,
                last_peak_time_ms,
                stop_order_id,
                exchange_stop_price,
            } => {
                if let Some(tp) = tp_price {
                    if current_price >= tp {
                        return (
                            PositionDecision::ExitLong,
                            String::from_str("Take-profit hit. We exit with glory."),
                        );
                    }
                }
                let mut peak: i128 = peak_price;
                let mut peak_time: u64 = last_peak_time_ms;
                if current_price > peak {
                    peak = current_price;
                    peak_time = now_ms;
                }
                let atr: i128 = max_fixed(atr14_5m, 1);
                let risk: i128 = max_fixed(entry_price - initial_stop_price, 1);
                let armed: bool = if bearish_bias {
                    2 * current_price >= 2 * entry_price + risk
                } else {
                    current_price >= entry_price + risk
                };
                let mut stop: i128 = stop_price;
                if armed {
                    let tenths: i128 = if bearish_bias {
                        15
                    } else {
                        22
                    };
                    proof {
                        lemma_round_div_bounds(tenths * atr, 10, 22 * LIMIT);
                    }
                    let trail: i128 = peak - div_round(tenths * atr, 10);
                    if trail > stop {
                        stop = trail;
                    }
                }
                self.position = Position::Long {
                    entry_price,
                    qty,
                    initial_stop_price,
                    stop_price: stop,
                    tp_price,
                    peak_price: peak,
                    entry_time_ms,
                    last_peak_time_ms: peak_time,
                    stop_order_id,
                    exchange_stop_price,
                };
                if current_price <= stop {
                    return (
                        PositionDecision::ExitLong,
                        String::from_str("Stop hit. We exit to protect you."),
                    );
                }
                let patience: u64 = if bearish_bias {
                    ms(1)
                } else {
                    ms(2)
                };
                if now_ms.saturating_sub(peak_time) > patience {
                    let reason: String = if bearish_bias {
                        String::from_str(
                            "HTF bearish — exiting after 1h without new highs. Protecting capital.",
                        )
                    } else {
                        String::from_str("Too long with no new highs. We exit.")
                    };
                    return (PositionDecision::ExitLong, reason);
                }
                (PositionDecision::Hold, String::from_str("We hold the position."))
            },
        }
    }
}

/// The long position right after a buy.
pub open spec fn opened(
    entry_price: i128,
    qty: i128,
    stop_price: i128,
    tp_price: Option<i128>,
    now_ms: u64,
) -> Position {
    Position::Long {
        entry_price,
        qty,
        initial_stop_price: stop_price,
        stop_price,
        tp_price,
        peak_price: entry_price,
        entry_time_ms: now_ms,
        last_peak_time_ms: now_ms,
        stop_order_id: None,
        exchange_stop_price: None,
    }
}

/// A stop price, where it is a positive number.
pub open spec fn usable(stop_price: Option<i128>) -> Option<i128> {
    match stop_price {
        Some(p) => if p > 0 {
            Some(p)
        } else {
            None
        },
        None => None,
    }
}

/// A position with the exchange's stop price, where there is one.
pub open spec fn with_exchange_stop(p: Position, stop_price: Option<i128>) -> Position {
    match p {
        Position::Long {
            entry_price,
            qty,
            initial_stop_price,
            stop_price: current_stop,
            tp_price,
            peak_price,
            entry_time_ms,
            last_peak_time_ms,
            stop_order_id,
            exchange_stop_price,
        } => Position::Long {
            entry_price,
            qty,
            initial_stop_price,
            stop_price: current_stop,
            tp_price,
            peak_price,
            entry_time_ms,
            last_peak_time_ms,
            stop_order_id,
            exchange_stop_price: if stop_price is Some {
                stop_price
            } else {
                exchange_stop_price
            },
        },
        _ => p,
    }
}

/// A long position with another stop order, and its price where there is one.
pub open spec fn with_stop_order(
    p: Position,
    order_id: Option<u64>,
    stop_price: Option<i128>,
) -> Position {
    match p {
        Position::Long {
            entry_price,
            qty,
            initial_stop_price,
            stop_price: current_stop,
            tp_price,
            peak_price,
            entry_time_ms,
            last_peak_time_ms,
            stop_order_id,
            exchange_stop_price,
        } => with_exchange_stop(
            Position::Long {
                entry_price,
                qty,
                initial_stop_price,
                stop_price: current_stop,
                tp_price,
                peak_price,
                entry_time_ms,
                last_peak_time_ms,
                stop_order_id: order_id,
                exchange_stop_price,
            },
            stop_price,
        ),
        _ => p,
    }
}

/// A position without a stop order.
pub open spec fn without_stop_order(p: Position) -> Position {
    match p {
        Position::Long {
            entry_price,
            qty,
            initial_stop_price,
            stop_price,
            tp_price,
            peak_price,
            entry_time_ms,
            last_peak_time_ms,
            stop_order_id,
            exchange_stop_price,
        } => Position::Long {
            entry_price,
            qty,
            initial_stop_price,
            stop_price,
            tp_price,
            peak_price,
            entry_time_ms,
            last_peak_time_ms,
            stop_order_id: None,
            exchange_stop_price: None,
        },
        _ => p,
    }
}

/// What was found where the state is kept.
pub enum StateFile {
    /// There is no file.
    Missing,
    /// The file could not be read.
    Unreadable { detail: String },
    /// The file does not hold a state.
    Invalid { detail: String },
    /// The file holds a state.
    Parsed { state: BotState },
}

/// A state to go on with.
pub struct Recovered {
    pub state: BotState,
    /// Whether the state has to be written back over a damaged file.
    pub rewrite: bool,
}

/// The state is lost, and the bot does not trade.
#[derive(Debug)]
pub struct StateLost {
    pub reason: &'static str,
    pub detail: String,
}

/// The text of a [`StateLost`].
pub open spec fn lost_text(reason: Seq<char>, detail: Seq<char>) -> Seq<char> {
    "bot_state.json unrecoverable ("@ + reason + ": "@ + detail + "); refusing to trade"@
}

impl StateLost {
    /// The message of the error.
    pub fn message(&self) -> (s: String)
        ensures
            s@ == lost_text(self.reason@, self.detail@),
    {
        let mut s: String = String::from_str("bot_state.json unrecoverable (");
        s.append(self.reason);
        s.append(": ");
        s.append(self.detail.as_str());
        s.append("); refusing to trade");
        s
    }
}

/// Whether the previous snapshot has to be put back in place before anything is
/// read: the file is gone and the snapshot is there.
pub fn restore_previous_first(file_exists: bool, previous_exists: bool) -> (r: bool)
    ensures
        r == (!file_exists && previous_exists),
{
    !file_exists && previous_exists
}

/// What stands in a field that was never filled in: the larger of the equity and
/// the starting amount.
pub open spec fn or_start(v: i128, equity: i128, starting_usdt: i128) -> i128 {
    if v <= 0 {
        max_of(equity as int, starting_usdt as int) as i128
    } else {
        v
    }
}

/// What [`BotState::fill_missing`] makes of a state.
pub open spec fn filled(s: BotState, starting_usdt: i128, today: Seq<char>, after: BotState) -> bool {
    &&& after.day_anchor_yyyymmdd@ == (if s.day_anchor_yyyymmdd@.len() == 0 {
        today
    } else {
        s.day_anchor_yyyymmdd@
    })
    &&& after == (BotState {
        starting_usdt: if s.starting_usdt <= 0 {
            starting_usdt
        } else {
            s.starting_usdt
        },
        start_equity_usdt: or_start(s.start_equity_usdt, s.equity_usdt, starting_usdt),
        peak_equity_usdt: or_start(s.peak_equity_usdt, s.equity_usdt, starting_usdt),
        daily_loss_start_equity_usdt: or_start(
            s.daily_loss_start_equity_usdt,
            s.equity_usdt,
            starting_usdt,
        ),
        day_anchor_yyyymmdd: after.day_anchor_yyyymmdd,
        ..s
    })
}

/// What loading the state comes to. A state that was read is completed. Where the
/// file is damaged, the previous snapshot takes its place, or, if the operator
/// accepts that, a fresh state; otherwise there is an error.
pub open spec fn recovery(
    file: StateFile,
    previous: Option<BotState>,
    accept_fresh: bool,
    starting_usdt: i128,
    today: Seq<char>,
    r: Result<Recovered, StateLost>,
) -> bool {
    match file {
        StateFile::Missing => {
            &&& r is Ok
            &&& fresh_state(starting_usdt, r->Ok_0.state)
            &&& r->Ok_0.state.day_anchor_yyyymmdd@ == today
            &&& !r->Ok_0.rewrite
        },
        StateFile::Parsed { state } => {
            &&& r is Ok
            &&& filled(state, starting_usdt, today, r->Ok_0.state)
            &&& !r->Ok_0.rewrite
        },
        StateFile::Unreadable { detail } => damaged(
            "unreadable"@,
            detail@,
            previous,
            accept_fresh,
            starting_usdt,
            today,
            r,
        ),
        StateFile::Invalid { detail } => damaged(
            "invalid_json"@,
            detail@,
            previous,
            accept_fresh,
            starting_usdt,
            today,
            r,
        ),
    }
}

/// What a damaged file comes to.
pub open spec fn damaged(
    reason: Seq<char>,
    detail: Seq<char>,
    previous: Option<BotState>,
    accept_fresh: bool,
    starting_usdt: i128,
    today: Seq<char>,
    r: Result<Recovered, StateLost>,
) -> bool {
    match previous {
        Some(p) => r == Ok::<Recovered, StateLost>(Recovered { state: p, rewrite: true }),
        None => if accept_fresh {
            &&& r is Ok
            &&& fresh_state(starting_usdt, r->Ok_0.state)
            &&& r->Ok_0.state.day_anchor_yyyymmdd@ == today
            &&& !r->Ok_0.rewrite
        } else {
            &&& r is Err
            &&& r->Err_0.reason@ == reason
            &&& r->Err_0.detail@ == detail
        },
    }
}

impl BotState {
    /// Fills in what an older file did not hold.
    pub fn fill_missing(&mut self, starting_usdt: i128, today: String)
        ensures
            filled(*old(self), starting_usdt, today@, *final(self)),
    {
        if self.starting_usdt <= 0 {
            self.starting_usdt = starting_usdt;
        }
        let amount: i128 = max_fixed(self.equity_usdt, starting_usdt);
        if self.start_equity_usdt <= 0 {
            self.start_equity_usdt = amount;
        }
        if self.peak_equity_usdt <= 0 {
            self.peak_equity_usdt = amount;
        }
        if self.daily_loss_start_equity_usdt <= 0 {
            self.daily_loss_start_equity_usdt = amount;
        }
        if self.day_anchor_yyyymmdd.as_str().is_empty() {
            self.day_anchor_yyyymmdd = today;
        }
    }
}

/// The last resort for a damaged file: a fresh state if the operator accepts that,
/// an error otherwise.
fn unrecoverable_state(
    starting_usdt: i128,
    reason: &'static str,
    detail: String,
    accept_fresh: bool,
    today: String,
) -> (r: Result<Recovered, StateLost>)
    ensures
        damaged(reason@, detail@, None, accept_fresh, starting_usdt, today@, r),
{
    if accept_fresh {
        Ok(Recovered { state: BotState::new_on(starting_usdt, today), rewrite: false })
    } else {
        Err(StateLost { reason, detail })
    }
}

/// Decides which state to go on with. See [`recovery`].
pub fn recover_state(
    file: StateFile,
    previous: Option<BotState>,
    accept_fresh: bool,
    starting_usdt: i128,
    today: String,
) -> (r: Result<Recovered, StateLost>)
    ensures
        recovery(file, previous, accept_fresh, starting_usdt, today@, r),
{
    match file {
        StateFile::Missing => Ok(
            Recovered { state: BotState::new_on(starting_usdt, today), rewrite: false },
        ),
        StateFile::Parsed { state } => {
            let mut st: BotState = state;
            st.fill_missing(starting_usdt, today);
            Ok(Recovered { state: st, rewrite: false })
        },
        StateFile::Unreadable { detail } => match previous {
            Some(p) => Ok(Recovered { state: p, rewrite: true }),
            None => unrecoverable_state(starting_usdt, "unreadable", detail, accept_fresh, today),
        },
        StateFile::Invalid { detail } => match previous {
            Some(p) => Ok(Recovered { state: p, rewrite: true }),
            None => unrecoverable_state(starting_usdt, "invalid_json", detail, accept_fresh, today),
        },
    }
}

/// A damaged file without a previous snapshot is never replaced in silence: the
/// bot refuses to trade unless the operator accepts a fresh state.
pub proof fn law_damaged_state_refuses(
    file: StateFile,
    starting_usdt: i128,
    today: Seq<char>,
    r: Result<Recovered, StateLost>,
)
    requires
        file is Unreadable || file is Invalid,
        recovery(file, None, false, starting_usdt, today, r),
    ensures
        r is Err,
{
}

/// A previous snapshot is preferred to a fresh state and to an error.
pub proof fn law_snapshot_is_preferred(
    file: StateFile,
    previous: BotState,
    accept_fresh: bool,
    starting_usdt: i128,
    today: Seq<char>,
    r: Result<Recovered, StateLost>,
)
    requires
        file is Unreadable || file is Invalid,
        recovery(file, Some(previous), accept_fresh, starting_usdt, today, r),
    ensures
        r is Ok,
        r->Ok_0.state == previous,
        r->Ok_0.rewrite,
{
}

/// Managing a position never lowers its stop or its peak, and changes nothing
/// else but the time of the peak.
pub proof fn law_stop_never_falls(
    position: Position,
    price: int,
    atr14_5m: int,
    now_ms: u64,
    bearish_bias: bool,
)
    requires
        position.ok(),
        bounded(price),
        bounded(atr14_5m),
    ensures
        ({
            let after = managed(position, price, atr14_5m, now_ms, bearish_bias).position;
            match position {
                Position::Long {
                    entry_price,
                    qty,
                    initial_stop_price,
                    stop_price,
                    tp_price,
                    peak_price,
                    entry_time_ms,
                    last_peak_time_ms,
                    stop_order_id,
                    exchange_stop_price,
                } => {
                    &&& after is Long
                    &&& after->stop_price >= stop_price
                    &&& after->peak_price >= peak_price
                    &&& after == (Position::Long {
                        entry_price,
                        qty,
                        initial_stop_price,
                        stop_price: after->stop_price,
                        tp_price,
                        peak_price: after->peak_price,
                        entry_time_ms,
                        last_peak_time_ms: after->last_peak_time_ms,
                        stop_order_id,
                        exchange_stop_price,
                    })
                },
                _ => after == position,
            }
        }),
{
    let a = max_of(atr14_5m, 1);
    lemma_round_div_bounds(22 * a, 10, 22 * LIMIT);
    lemma_round_div_bounds(15 * a, 10, 22 * LIMIT);
}

/// A long position is only held above its stop, and for no longer than two hours
/// without a new peak.
pub proof fn law_hold_is_above_the_stop(
    position: Position,
    price: int,
    atr14_5m: int,
    now_ms: u64,
    bearish_bias: bool,
)
    requires
        position is Long,
        position.ok(),
        bounded(price),
        bounded(atr14_5m),
        managed(position, price, atr14_5m, now_ms, bearish_bias).decision == PositionDecision::Hold,
    ensures
        ({
            let after = managed(position, price, atr14_5m, now_ms, bearish_bias).position;
            &&& price > after->stop_price
            &&& now_ms - after->last_peak_time_ms <= 7_200_000
            &&& (position->tp_price is Some ==> price < position->tp_price->0)
        }),
{
    let a = max_of(atr14_5m, 1);
    lemma_round_div_bounds(22 * a, 10, 22 * LIMIT);
    lemma_round_div_bounds(15 * a, 10, 22 * LIMIT);
}

/// Against the one-hour averages the trail is armed sooner and stays closer to
/// the peak.
pub proof fn law_bearish_trail_is_tighter(
    entry_price: int,
    initial_stop_price: int,
    price: int,
    peak_price: int,
    atr14_5m: int,
)
    ensures
        trail_armed(entry_price, initial_stop_price, price, false) ==> trail_armed(
            entry_price,
            initial_stop_price,
            price,
            true,
        ),
        trail_price(peak_price, atr14_5m, false) <= trail_price(peak_price, atr14_5m, true),
{
    let a = max_of(atr14_5m, 1);
    crate::fixed::lemma_round_div_monotone(15 * a, 22 * a, 10);
}

/// Forgetting a stop order undoes recording one.
pub proof fn law_stop_order_round_trip(p: Position, order_id: u64, stop_price: Option<i128>)
    ensures
        without_stop_order(with_stop_order(p, Some(order_id), stop_price)) == without_stop_order(p),
        p is Long ==> with_stop_order(p, Some(order_id), stop_price)->stop_order_id == Some(
            order_id,
        ),
{
}

/// Death is final: no change of equity and no new day revives the bot.
pub proof fn law_death_is_final(s: BotState, equity: i128, today: Seq<char>, after: BotState)
    requires
        s.is_dead,
        s.synced(equity, today, after),
    ensures
        after.is_dead,
        s.life_signs(equity as int) == (false, false),
{
}

/// A living bot never dies and unlocks its profit at once; it dies exactly where
/// a fifth of a positive anchor is gone.
pub proof fn law_life_signs(s: BotState, equity: int)
    requires
        !s.is_dead,
        s.start_equity_usdt > 0,
    ensures
        s.life_signs(equity).0 <==> 5 * equity <= 4 * s.start_equity_usdt,
        s.life_signs(equity).1 <==> 5 * equity >= 6 * s.start_equity_usdt,
{
}

/// On a new day the bot may trade again: hibernation has ended, no trade is
/// counted and nothing is lost.
pub proof fn law_new_day_starts_over(s: BotState, equity: i128, today: Seq<char>, after: BotState)
    requires
        s.synced(equity, today, after),
        s.day_anchor_yyyymmdd@ != today,
    ensures
        after.hibernation_until_ms == 0,
        after.trades_today == 0,
        after.daily_loss_start_equity_usdt == equity,
{
}

/// Each new high is the peak, and starts the clock of the time stop anew; without one both
/// stay. A take-profit that is reached leaves everything as it is.
pub proof fn law_new_high_restarts_the_clock(
    position: Position,
    price: i128,
    atr14_5m: int,
    now_ms: u64,
    bearish_bias: bool,
)
    requires
        position is Long,
    ensures
        ({
            let after = managed(position, price as int, atr14_5m, now_ms, bearish_bias).position;
            let taken = position->tp_price is Some && price >= position->tp_price->0;
            &&& taken ==> after == position
            &&& !taken && price > position->peak_price ==> after->peak_price == price
                && after->last_peak_time_ms == now_ms
            &&& !taken && price <= position->peak_price ==> after->peak_price
                == position->peak_price && after->last_peak_time_ms == position->last_peak_time_ms
        }),
{
}

/// A position is left where its take-profit is reached, where the price is at its stop, or
/// where no new high came for two hours (one against the one-hour averages); else it is
/// held. So a new high above the stop is always held, unless it reaches the take-profit.
pub proof fn law_position_is_left_for_three_reasons(
    position: Position,
    price: i128,
    atr14_5m: int,
    now_ms: u64,
    bearish_bias: bool,
)
    requires
        position is Long,
        position.ok(),
        bounded(price as int),
        bounded(atr14_5m),
    ensures
        ({
            let m = managed(position, price as int, atr14_5m, now_ms, bearish_bias);
            let taken = position->tp_price is Some && price >= position->tp_price->0;
            let hit = price <= m.position->stop_price;
            let idle = now_ms - m.position->last_peak_time_ms > (if bearish_bias {
                3_600_000int
            } else {
                7_200_000
            });
            &&& m.decision == PositionDecision::ExitLong <==> taken || hit || idle
            &&& m.decision == PositionDecision::ExitLong || m.decision == PositionDecision::Hold
            &&& taken ==> m.reason == "Take-profit hit. We exit with glory."@
            &&& !taken && hit ==> m.reason == "Stop hit. We exit to protect you."@
            &&& !taken && !hit && idle && bearish_bias ==> m.reason
                == "HTF bearish — exiting after 1h without new highs. Protecting capital."@
            &&& !taken && !hit && idle && !bearish_bias ==> m.reason
                == "Too long with no new highs. We exit."@
            &&& price > position->peak_price && price > m.position->stop_price && !taken ==> m.decision
                == PositionDecision::Hold
        }),
{
    let a = max_of(atr14_5m, 1);
    lemma_round_div_bounds(22 * a, 10, 22 * LIMIT);
    lemma_round_div_bounds(15 * a, 10, 22 * LIMIT);
}

/// The stop stays where it is until the price has gained what the entry risked (half of it
/// against the one-hour averages). From then on it is at least 2.2 average true ranges
/// under the peak (1.5 against the averages), to half a step, and no higher than that unless
/// it was.
pub proof fn law_stop_trails_the_peak(
    position: Position,
    price: i128,
    atr14_5m: int,
    now_ms: u64,
    bearish_bias: bool,
)
    requires
        position is Long,
        position.ok(),
        bounded(price as int),
        1 <= atr14_5m <= LIMIT,
        position->tp_price is Some ==> price < position->tp_price->0,
    ensures
        ({
            let after = managed(position, price as int, atr14_5m, now_ms, bearish_bias).position;
            let gain = price - position->entry_price;
            let risked = position->entry_price - position->initial_stop_price;
            let armed = if bearish_bias {
                2 * gain >= risked && 2 * gain >= 1
            } else {
                gain >= risked && gain >= 1
            };
            let tenths = if bearish_bias {
                15int
            } else {
                22
            };
            let under = 10 * (after->peak_price - after->stop_price) - tenths * atr14_5m;
            &&& !armed ==> after->stop_price == position->stop_price
            &&& armed ==> under <= 5
            &&& armed ==> after->stop_price == position->stop_price || under >= -5
            &&& after->stop_price >= position->stop_price
        }),
{
    let a = max_of(atr14_5m, 1);
    lemma_round_div_bounds(22 * a, 10, 22 * LIMIT);
    lemma_round_div_bounds(15 * a, 10, 22 * LIMIT);
    crate::fixed::lemma_round_div_error(22 * a, 10);
    crate::fixed::lemma_round_div_error(15 * a, 10);
}

/// What is not a managed position is left alone.
pub proof fn law_other_inventory_is_left_alone(
    position: Position,
    price: int,
    atr14_5m: int,
    now_ms: u64,
    bearish_bias: bool,
)
    requires
        !(position is Long),
    ensures
        managed(position, price, atr14_5m, now_ms, bearish_bias).position == position,
        managed(position, price, atr14_5m, now_ms, bearish_bias).decision == PositionDecision::Hold,
{
}

/// A new position has the price, the quantity, the stop and the take-profit that it was
/// opened with; its peak is its entry, its clock starts now, and the exchange holds no stop
/// of it yet.
pub proof fn law_new_position_is_as_it_was_bought(
    entry_price: i128,
    qty: i128,
    stop_price: i128,
    tp_price: Option<i128>,
    now_ms: u64,
)
    ensures
        ({
            let p = opened(entry_price, qty, stop_price, tp_price, now_ms);
            &&& p is Long
            &&& p->entry_price == entry_price
            &&& p->Long_qty == qty
            &&& p->initial_stop_price == stop_price
            &&& p->stop_price == stop_price
            &&& p->tp_price == tp_price
            &&& p->peak_price == entry_price
            &&& p->entry_time_ms == now_ms
            &&& p->last_peak_time_ms == now_ms
            &&& p->stop_order_id is None
            &&& p->exchange_stop_price is None
        }),
{
}

/// Noting a stop order changes what is known of that order and nothing else of the
/// position; a price that is none, or not positive, leaves the known one.
pub proof fn law_stop_order_is_noted(p: Position, order_id: u64, stop_price: Option<i128>)
    requires
        p is Long,
    ensures
        ({
            let q = with_stop_order(p, Some(order_id), usable(stop_price));
            let r = with_exchange_stop(p, usable(stop_price));
            let good = stop_price is Some && stop_price->0 > 0;
            &&& q is Long && r is Long
            &&& q->stop_order_id == Some(order_id)
            &&& r->stop_order_id == p->stop_order_id
            &&& good ==> q->exchange_stop_price == stop_price && r->exchange_stop_price == stop_price
            &&& !good ==> q->exchange_stop_price == p->exchange_stop_price && r->exchange_stop_price
                == p->exchange_stop_price
            &&& q->entry_price == p->entry_price && r->entry_price == p->entry_price
            &&& q->Long_qty == p->Long_qty && r->Long_qty == p->Long_qty
            &&& q->initial_stop_price == p->initial_stop_price && r->initial_stop_price
                == p->initial_stop_price
            &&& q->stop_price == p->stop_price && r->stop_price == p->stop_price
            &&& q->tp_price == p->tp_price && r->tp_price == p->tp_price
            &&& q->peak_price == p->peak_price && r->peak_price == p->peak_price
            &&& q->entry_time_ms == p->entry_time_ms && r->entry_time_ms == p->entry_time_ms
            &&& q->last_peak_time_ms == p->last_peak_time_ms && r->last_peak_time_ms
                == p->last_peak_time_ms
            &&& without_stop_order(p)->stop_order_id is None
            &&& without_stop_order(p)->exchange_stop_price is None
            &&& without_stop_order(p)->stop_price == p->stop_price
            &&& without_stop_order(p)->entry_price == p->entry_price
            &&& without_stop_order(p)->Long_qty == p->Long_qty
        }),
{
}

/// Taking over an equity: it is the equity, the peak is the highest so far, the gain of the
/// session is measured from its start, what has an anchor keeps it, and within a day the
/// day's anchor, its hibernation and its trades stay. A bot without equity is dead, one
/// with equity is no deader than before.
pub proof fn law_equity_is_taken_over(s: BotState, equity: i128, today: Seq<char>, after: BotState)
    requires
        s.synced(equity, today, after),
        s.ok(),
        bounded(equity as int),
    ensures
        after.equity_usdt == equity,
        after.peak_equity_usdt >= equity,
        s.peak_equity_usdt > 0 ==> after.peak_equity_usdt >= s.peak_equity_usdt,
        after.peak_equity_usdt == equity || after.peak_equity_usdt == s.peak_equity_usdt,
        s.start_equity_usdt > 0 ==> after.start_equity_usdt == s.start_equity_usdt,
        s.start_equity_usdt <= 0 ==> after.start_equity_usdt == equity,
        s.session_start_equity_usdt > 0 && -LIMIT <= equity - s.session_start_equity_usdt <= LIMIT
            ==> after.session_pnl_usdt == equity - s.session_start_equity_usdt,
        s.session_start_equity_usdt <= 0 ==> after.session_pnl_usdt == 0
            && after.session_start_equity_usdt == equity,
        s.day_anchor_yyyymmdd@ == today ==> after.daily_loss_start_equity_usdt
            == s.daily_loss_start_equity_usdt && after.hibernation_until_ms == s.hibernation_until_ms
            && after.trades_today == s.trades_today,
        equity <= 0 ==> after.is_dead,
        equity > 0 ==> after.is_dead == s.is_dead,
        after.position == s.position,
        after.cooldown_until_ms == s.cooldown_until_ms,
        after.fees_usdt == s.fees_usdt,
        after.realized_pnl_usdt == s.realized_pnl_usdt,
        after.profit_unlocked == s.profit_unlocked,
        after.day_anchor_yyyymmdd@ == today,
{
}

/// What an older file did not hold is filled in from its equity or the starting amount,
/// whichever is more; what it holds stays.
pub proof fn law_filling_keeps_what_is_there(
    s: BotState,
    starting_usdt: i128,
    today: Seq<char>,
    after: BotState,
)
    requires
        filled(s, starting_usdt, today, after),
    ensures
        s.starting_usdt > 0 ==> after.starting_usdt == s.starting_usdt,
        s.starting_usdt <= 0 ==> after.starting_usdt == starting_usdt,
        s.start_equity_usdt > 0 ==> after.start_equity_usdt == s.start_equity_usdt,
        s.start_equity_usdt <= 0 ==> after.start_equity_usdt >= s.equity_usdt
            && after.start_equity_usdt >= starting_usdt && (after.start_equity_usdt == s.equity_usdt
            || after.start_equity_usdt == starting_usdt),
        s.peak_equity_usdt > 0 ==> after.peak_equity_usdt == s.peak_equity_usdt,
        s.peak_equity_usdt <= 0 ==> after.peak_equity_usdt >= s.equity_usdt
            && after.peak_equity_usdt >= starting_usdt && (after.peak_equity_usdt == s.equity_usdt
            || after.peak_equity_usdt == starting_usdt),
        s.daily_loss_start_equity_usdt > 0 ==> after.daily_loss_start_equity_usdt
            == s.daily_loss_start_equity_usdt,
        s.daily_loss_start_equity_usdt <= 0 ==> after.daily_loss_start_equity_usdt >= s.equity_usdt
            && after.daily_loss_start_equity_usdt >= starting_usdt && (
        after.daily_loss_start_equity_usdt == s.equity_usdt || after.daily_loss_start_equity_usdt
            == starting_usdt),
        s.day_anchor_yyyymmdd@.len() > 0 ==> after.day_anchor_yyyymmdd@ == s.day_anchor_yyyymmdd@,
        s.day_anchor_yyyymmdd@.len() == 0 ==> after.day_anchor_yyyymmdd@ == today,
        after.position == s.position,
        after.is_dead == s.is_dead,
        after.equity_usdt == s.equity_usdt,
        after.trades_today == s.trades_today,
        after.hibernation_until_ms == s.hibernation_until_ms,
        after.cooldown_until_ms == s.cooldown_until_ms,
        after.pending_entry_order_id == s.pending_entry_order_id,
{
}

/// A file that could be read is gone on with, and one that is missing starts afresh: flat,
/// alive and with nothing lost or traded.
pub proof fn law_readable_state_is_gone_on_with(
    file: StateFile,
    previous: Option<BotState>,
    accept_fresh: bool,
    starting_usdt: i128,
    today: Seq<char>,
    r: Result<Recovered, StateLost>,
)
    requires
        recovery(file, previous, accept_fresh, starting_usdt, today, r),
    ensures
        file is Parsed ==> r is Ok && !r->Ok_0.rewrite && r->Ok_0.state.position
            == file->state.position && r->Ok_0.state.is_dead == file->state.is_dead
            && r->Ok_0.state.equity_usdt == file->state.equity_usdt && r->Ok_0.state.trades_today
            == file->state.trades_today,
        file is Missing ==> r is Ok && !r->Ok_0.rewrite && r->Ok_0.state.position
            == Position::Flat && !r->Ok_0.state.is_dead && r->Ok_0.state.equity_usdt
            == starting_usdt && r->Ok_0.state.start_equity_usdt == starting_usdt
            && r->Ok_0.state.peak_equity_usdt == starting_usdt
            && r->Ok_0.state.daily_loss_start_equity_usdt == starting_usdt
            && r->Ok_0.state.trades_today == 0 && r->Ok_0.state.fees_usdt == 0
            && r->Ok_0.state.pending_entry_order_id is None
            && r->Ok_0.state.hibernation_until_ms == 0 && r->Ok_0.state.cooldown_until_ms == 0,
{
}

} // verus!
