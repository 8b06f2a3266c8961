//! What the steps of a run come to: theorems about [`crate::tick`].
use crate::binance_orders::{fees_of, MyTrade, OpenOrder, OrderState};
use crate::execution::Mode;
use crate::fixed::{lemma_round_div_error, lemma_round_div_monotone, saturated, LIMIT, ONE};
use crate::numeral::fixed_value;
use crate::regime::Regime;
use crate::risk::account_gate;
use crate::signals::{law_best_strategy_enters, law_entries_are_ranked, Action};
use crate::sizing::{law_step_down, step_down};
use crate::state::{BotState, Position, PositionDecision};
use crate::tick::{
    CancelResult, Decision, Event, Note, OrderFacts, OrderResult, Phase, Request, TickView,
    BTC_DUST,
};
use vstd::prelude::*;

verus! {

/// A position that is entered has its take-profit three times as far over the market price
/// as its stop is under it; it has the price and the quantity that were bought, the trade
/// counts, and nothing is pending any more.
pub proof fn law_take_profit_is_three_times_the_risk(
    v: TickView,
    entry_price: i128,
    qty: i128,
    stop: i128,
    trades: Vec<MyTrade>,
)
    requires
        v.phase == (Phase::BuyTrades { entry_price, qty, stop }),
        stop < v.base.market.price,
        v.base.market.price + 3 * (v.base.market.price - stop) <= LIMIT,
        -LIMIT <= v.base.market.price,
    ensures
        ({
            let after = v.next(Event::Trades { trades }).0;
            let p = after.state.position;
            &&& p is Long
            &&& p->tp_price is Some
            &&& p->tp_price->0 > v.base.market.price
            &&& p->tp_price->0 - v.base.market.price == 3 * (v.base.market.price - stop)
            &&& p->entry_price == entry_price
            &&& p->Long_qty == qty
            &&& p->stop_price == stop
            &&& p->initial_stop_price == stop
            &&& p->entry_time_ms == v.base.market.now_ms
            &&& p->last_peak_time_ms == v.base.market.now_ms
            &&& p->peak_price == entry_price
            &&& after.state.pending_entry_order_id is None
            &&& after.state.pending_entry_stop_price is None
            &&& after.state.last_stop_order_id is None
            &&& v.state.trades_today < u32::MAX ==> after.state.trades_today == v.state.trades_today + 1
            &&& v.next(Event::Trades { trades }).1.note == Note::Entered
            &&& v.next(Event::Trades { trades }).1.save
        }),
{
}

/// A buy that is filled at once, without an order to ask about, becomes the position at the
/// market price: with the planned quantity and stop, and the take-profit at three times the
/// risk.
pub proof fn law_practice_buy_is_the_position(v: TickView, qty: i128, stop: i128, order_id: Option<u64>)
    requires
        v.phase == (Phase::Buying { qty, stop }),
        v.base.set.mode != Mode::Live || order_id is None,
        stop < v.base.market.price,
        v.base.market.price + 3 * (v.base.market.price - stop) <= LIMIT,
        -LIMIT <= v.base.market.price,
    ensures
        ({
            let after = v.next(Event::Bought { result: OrderResult::Accepted { order_id } }).0;
            let p = after.state.position;
            &&& p is Long
            &&& p->entry_price == v.base.market.price
            &&& p->Long_qty == qty
            &&& p->stop_price == stop
            &&& p->tp_price is Some
            &&& p->tp_price->0 - v.base.market.price == 3 * (v.base.market.price - stop)
            &&& after.did_place_order
            &&& after.decision == Decision::EnterLong
        }),
{
}

/// The limit of a stop order is 0.2% under the stop, to half a step, and never under one
/// cent; so a stop from two cents on has its limit under it.
pub proof fn law_limit_is_under_the_stop(stop: int)
    ensures
        ({
            let limit = TickView::limit_under(stop);
            &&& limit >= 10_000_000_000
            &&& limit == 10_000_000_000 || -500 <= 1000 * limit - 998 * stop <= 500
            &&& 1000 * limit >= 998 * stop - 500
            &&& stop >= 20_000_000_000 ==> limit < stop
        }),
{
    lemma_round_div_error(998 * stop, 1000);
}

/// A new live position is protected at once: for its quantity, at its stop, with the limit
/// under it.
pub proof fn law_new_position_is_protected(
    v: TickView,
    entry_price: i128,
    qty: i128,
    stop: i128,
    trades: Vec<MyTrade>,
)
    requires
        v.phase == (Phase::BuyTrades { entry_price, qty, stop }),
        v.base.set.mode == Mode::Live,
        20_000_000_000 <= stop <= LIMIT,
    ensures
        ({
            let step = v.next(Event::Trades { trades }).1;
            &&& step.request is PlaceStop
            &&& step.request->PlaceStop_qty == qty
            &&& step.request->stop_price == stop
            &&& step.request->limit_price < stop
            &&& -500 <= 1000 * step.request->limit_price - 998 * stop <= 500
        }),
{
    law_limit_is_under_the_stop(stop as int);
    lemma_round_div_error(998 * stop, 1000);
    lemma_round_div_monotone(998 * stop, 1000 * stop, 1000);
    crate::fixed::lemma_round_div_exact(stop as int, 1000);
}

/// A filled buy is entered at its average price: the value over the quantity, to half a
/// step; where that is not known, at the market price. Its quantity is what was executed,
/// or what was planned.
pub proof fn law_fill_gives_price_and_quantity(
    v: TickView,
    order_id: u64,
    qty: i128,
    stop: i128,
    f: OrderFacts,
)
    requires
        v.phase == (Phase::BuyStatus { order_id, qty, stop }),
        f.ok(),
        f.executed is Some,
        f.executed->0 > 0 ==> f.quote is Some,
    ensures
        ({
            let after = v.next(Event::OrderInfo { facts: Some(f) }).0;
            let done = f.executed->0;
            &&& after.phase is BuyTrades
            &&& after.phase->BuyTrades_stop == stop
            &&& done > 0 ==> after.phase->BuyTrades_qty == done
            &&& done <= 0 ==> after.phase->BuyTrades_qty == qty && after.phase->BuyTrades_entry_price
                == v.base.market.price
            &&& done > 0 && f.quote->0 <= 0 ==> after.phase->BuyTrades_entry_price
                == v.base.market.price
            &&& done > 0 && f.quote->0 > 0 && after.phase->BuyTrades_entry_price < LIMIT ==> -done
                <= 2 * (after.phase->BuyTrades_entry_price * done - f.quote->0 * ONE) <= done
            &&& after.state == v.state
        }),
{
    let done = f.executed->0 as int;
    if done > 0 && f.quote->0 > 0 {
        lemma_round_div_error(f.quote->0 * ONE, done);
        lemma_round_div_monotone(0, f.quote->0 * ONE, done);
        crate::fixed::lemma_round_div_exact(0, done);
    }
}

/// Fees are booked where they fall: what is added to the fees is taken from the equity, a
/// bot whose equity is used up is dead, and nothing else changes.
pub proof fn law_fees_are_taken_from_the_equity(v: TickView, trades: Seq<MyTrade>, price: int)
    requires
        v.state.ok(),
    ensures
        ({
            let after = v.charged(trades, price);
            let fee = fees_of(trades, price, trades.len() as int);
            &&& fee is Some && fee->0 > 0 && v.state.fees_usdt + fee->0 <= LIMIT
                && v.state.equity_usdt - fee->0 >= -LIMIT ==> {
                &&& after.fees_usdt - v.state.fees_usdt == fee->0
                &&& v.state.equity_usdt - after.equity_usdt == fee->0
                &&& after.is_dead == (v.state.is_dead || after.equity_usdt <= 0)
            }
            &&& fee is None || fee->0 <= 0 ==> after == v.state
            &&& after.position == v.state.position
            &&& after.realized_pnl_usdt == v.state.realized_pnl_usdt
            &&& after.trades_today == v.state.trades_today
            &&& after.peak_equity_usdt == v.state.peak_equity_usdt
        }),
{
}

/// A closed position is gone from the books, the bot rests for an hour, and what was
/// executed books its gain: the average price over the entry price, times the quantity, to
/// half a step. The exit is told with the entry of the position.
pub proof fn law_exit_books_the_gain(
    v: TickView,
    trades: Vec<MyTrade>,
    avg_sell: i128,
    exec_qty: i128,
)
    requires
        v.phase == (Phase::ExitTrades { avg_sell, exec_qty }),
        v.state.position is Long,
        v.base.market.now_ms <= 1_000_000_000_000_000_000,
    ensures
        ({
            let (after, step) = v.next(Event::Trades { trades });
            let p = v.state.position;
            let gain = after.state.realized_pnl_usdt - v.state.realized_pnl_usdt;
            &&& after.state.position == Position::Flat
            &&& after.state.cooldown_until_ms == v.base.market.now_ms + 3_600_000
            &&& exec_qty <= 0 ==> gain == 0
            &&& exec_qty > 0 && -LIMIT < after.state.realized_pnl_usdt < LIMIT ==> -ONE <= 2 * (gain
                * ONE - (avg_sell - p->entry_price) * exec_qty) <= ONE
            &&& step.note == (Note::Exited {
                entry_time_ms: p->entry_time_ms,
                entry_price: p->entry_price,
                exit_price: v.base.market.price,
                qty: p->Long_qty,
            })
            &&& step.save
            &&& step.request == Request::WrapUp
        }),
{
    let p = v.state.position;
    lemma_round_div_error((avg_sell - p->entry_price) * exec_qty, ONE as int);
}

/// The report on a sale gives its average price, or the market price where it cannot be
/// read, and what was executed.
pub proof fn law_sale_is_priced_by_its_fill(v: TickView, order_id: u64, f: OrderFacts)
    requires
        v.phase == (Phase::ExitStatus { order_id }),
        f.ok(),
    ensures
        ({
            let after = v.next(Event::OrderInfo { facts: Some(f) }).0;
            &&& after.phase is ExitTrades
            &&& f.executed is Some ==> after.phase->exec_qty == f.executed->0
            &&& f.executed is None ==> after.phase->exec_qty == 0 && after.phase->avg_sell
                == v.base.market.price
            &&& f.executed is Some && f.executed->0 > 0 && f.quote is Some && f.quote->0 > 0
                && after.phase->avg_sell < LIMIT ==> -f.executed->0 <= 2 * (after.phase->avg_sell
                * f.executed->0 - f.quote->0 * ONE) <= f.executed->0
            &&& f.executed is Some && f.executed->0 > 0 && f.quote is None ==> after.phase->avg_sell
                == v.base.market.price
        }),
{
    if f.executed is Some && f.quote is Some && f.executed->0 > 0 && f.quote->0 > 0 {
        let done = f.executed->0 as int;
        lemma_round_div_error(f.quote->0 * ONE, done);
        lemma_round_div_monotone(0, f.quote->0 * ONE, done);
        crate::fixed::lemma_round_div_exact(0, done);
    }
}

/// What of a position is sold is no more than it holds and no more than the wallet holds,
/// in whole steps, and misses the smaller of both by less than one step.
pub proof fn law_sale_is_what_is_there(v: TickView)
    requires
        v.state.position is Long,
        v.state.ok(),
        v.base.ok(),
        v.base.market.step_size > 0,
        v.leaving().1.request is SellMarket,
    ensures
        ({
            let qty = v.leaving().1.request->SellMarket_qty;
            let held = v.state.position->Long_qty;
            let wallet = v.base.wallet.all_btc();
            &&& 0 < qty <= held
            &&& qty <= wallet
            &&& (qty as int) % (v.base.market.step_size as int) == 0
            &&& qty > held - v.base.market.step_size || qty > wallet - v.base.market.step_size
        }),
{
    let held = v.state.position->Long_qty as int;
    let wallet = v.base.wallet.all_btc();
    let least = if held <= wallet {
        held
    } else {
        wallet
    };
    law_step_down(least, v.base.market.step_size as int);
}

/// All coins of the wallet are the free and the locked ones, as far as they can be counted.
pub proof fn law_wallet_counts_free_and_locked(v: TickView)
    ensures
        ({
            let w = v.base.wallet;
            -LIMIT <= w.btc_free + w.btc_locked <= LIMIT ==> w.all_btc() == w.btc_free + w.btc_locked
        }),
{
}

/// A stop that the exchange has filled closes the books on the position: flat, a pause of an
/// hour, told at the stop price.
pub proof fn law_filled_stop_closes_the_position(v: TickView, f: OrderFacts)
    requires
        v.phase == Phase::StopStatus,
        v.state.position is Long,
        f.state == OrderState::Filled,
        v.base.market.now_ms <= 1_000_000_000_000_000_000,
    ensures
        ({
            let (after, step) = v.next(Event::OrderInfo { facts: Some(f) });
            let p = v.state.position;
            &&& after.state.position == Position::Flat
            &&& after.state.cooldown_until_ms == v.base.market.now_ms + 3_600_000
            &&& after.state.last_stop_order_id is None
            &&& step.note == (Note::Exited {
                entry_time_ms: p->entry_time_ms,
                entry_price: p->entry_price,
                exit_price: p->stop_price,
                qty: p->Long_qty,
            })
            &&& step.request == Request::Finish
            &&& step.save
        }),
{
}

/// A live position that is held is guarded: without a stop at the exchange one is placed at
/// the position's stop, for what the wallet can cover; a stop that has risen by more than a
/// tick is replaced; otherwise the run ends.
pub proof fn law_held_position_is_guarded(v: TickView, existing: Option<i128>)
    requires
        v.state.position is Long,
        v.state.ok(),
        v.base.ok(),
        v.base.market.step_size > 0,
        v.state.position->Long_qty >= v.base.market.step_size,
        v.base.wallet.all_btc() >= v.base.market.step_size,
        v.state.position->stop_price > 0,
    ensures
        ({
            let r = v.guarded(existing).1.request;
            let p = v.state.position;
            &&& p->stop_order_id is None ==> r is PlaceStop && r->stop_price == p->stop_price
                && r->PlaceStop_qty <= p->Long_qty && r->PlaceStop_qty <= v.base.wallet.all_btc()
                && r->PlaceStop_qty > 0
            &&& p->stop_order_id is Some && existing is Some && p->stop_price > existing->0
                + v.base.market.tick_size ==> r == (Request::CancelOrder {
                order_id: p->stop_order_id->0,
            })
            &&& p->stop_order_id is Some && (existing is None || p->stop_price <= existing->0
                + v.base.market.tick_size) ==> r == Request::WrapUp
            &&& v.guarded(existing).0.state == v.state
        }),
{
    let held = v.state.position->Long_qty as int;
    let wallet = v.base.wallet.all_btc();
    let least = if held <= wallet {
        held
    } else {
        wallet
    };
    let step = v.base.market.step_size as int;
    law_step_down(least, step);
    if step_down(least, step) <= 0 {
        vstd::arithmetic::div_mod::lemma_div_is_ordered(step, least, step);
        vstd::arithmetic::div_mod::lemma_div_multiples_vanish(1, step);
        assert(step_down(least, step) >= step) by (nonlinear_arith)
            requires
                least / step >= 1,
                step > 0,
                step_down(least, step) == (least / step) * step,
        ;
    }
}

/// The wallet is the truth: a position without coins is closed, with the pause of an hour,
/// and its stop order, if it had one, is the one to cancel.
pub proof fn law_position_without_coins_is_closed(v: TickView)
    requires
        v.state.position is Long,
        !v.has_btc(),
        v.base.set.mode == Mode::Live,
        v.state.position->stop_order_id is Some,
        v.base.market.now_ms <= 1_000_000_000_000_000_000,
    ensures
        ({
            let (after, step) = v.reconciled();
            &&& after.state.position == Position::Flat
            &&& after.state.cooldown_until_ms == v.base.market.now_ms + 3_600_000
            &&& step.request == (Request::CancelOrder {
                order_id: v.state.position->stop_order_id->0,
            })
            &&& step.save
        }),
{
}

/// The wallet has coins where it holds more than 0.00001 BTC.
pub proof fn law_dust_is_no_coin(v: TickView)
    ensures
        v.has_btc() <==> v.base.wallet.all_btc() > 10_000_000,
{
}

/// Coins that the bot did not buy are never bought over: they stop the run, unless a live
/// run may take them over. A takeover manages what the wallet holds in whole steps, at the
/// market price, with a stop under it.
pub proof fn law_unknown_coins_stop_the_run(v: TickView)
    requires
        v.state.position is Flat,
        v.has_btc(),
        v.base.set.mode != Mode::Live || !v.base.set.allow_external,
    ensures
        v.settled().1.request == Request::Finish,
        v.settled().1.save,
        v.settled().0.decision == Decision::Wait,
        v.settled().0.state.position == (Position::ExternalInventory {
            btc_qty: v.base.wallet.all_btc() as i128,
            detected_time_ms: v.base.market.now_ms,
        }),
{
}

/// A takeover is managed like a bought position: the wallet's coins in whole steps, at the
/// market price; its stop is 1.8 average true ranges under it where that is a price, and
/// otherwise one tick under it.
pub proof fn law_takeover_is_a_position(v: TickView)
    requires
        v.base.ok(),
        v.base.market.step_size > 0,
        v.base.features.atr14_5m >= 1,
        0 < v.base.market.tick_size,
        2 * v.base.market.tick_size <= v.base.market.price,
    ensures
        ({
            let s = v.taken_over();
            let p = s.position;
            let m = v.base.market;
            let wallet = v.base.wallet.all_btc();
            &&& p is Long
            &&& p->entry_price == m.price
            &&& p->tp_price is None
            &&& wallet - m.step_size < p->Long_qty <= wallet
            &&& (p->Long_qty as int) % (m.step_size as int) == 0
            &&& p->stop_price < m.price
            &&& p->stop_price > 0
            &&& p->stop_price == m.price - m.tick_size || -5 <= 10 * (m.price - p->stop_price) - 18
                * v.base.features.atr14_5m <= 5
            &&& 10 * m.price > 18 * v.base.features.atr14_5m + 5 ==> -5 <= 10 * (m.price
                - p->stop_price) - 18 * v.base.features.atr14_5m <= 5
        }),
{
    let wallet = v.base.wallet.all_btc();
    law_step_down(wallet, v.base.market.step_size as int);
    let a = v.base.features.atr14_5m as int;
    lemma_round_div_error(18 * a, 10);
}

/// The cap on one trade is its share of the equity, to half a step, and never more than the
/// absolute amount.
pub proof fn law_cap_is_a_share_of_the_equity(v: TickView)
    requires
        v.state.equity_usdt >= 0,
        v.base.set.max_notional_fraction >= 0,
        v.cap() < LIMIT,
    ensures
        v.cap() >= 0,
        v.base.set.max_notional_usdt is Some && v.base.set.max_notional_usdt->0 >= 0 ==> v.cap()
            <= v.base.set.max_notional_usdt->0,
        2 * (v.cap() * ONE - v.state.equity_usdt * v.base.set.max_notional_fraction) <= ONE,
        v.base.set.max_notional_usdt is None ==> 2 * (v.cap() * ONE - v.state.equity_usdt
            * v.base.set.max_notional_fraction) >= -ONE,
        v.base.set.max_notional_usdt is Some && v.cap() < v.base.set.max_notional_usdt->0 ==> 2 * (
        v.cap() * ONE - v.state.equity_usdt * v.base.set.max_notional_fraction) >= -ONE,
{
    let e = v.state.equity_usdt as int;
    let f = v.base.set.max_notional_fraction as int;
    assert(e * f >= 0) by (nonlinear_arith)
        requires
            e >= 0,
            f >= 0,
    ;
    lemma_round_div_error(e * f, ONE as int);
    lemma_round_div_monotone(0, e * f, ONE as int);
    crate::fixed::lemma_round_div_exact(0, ONE as int);
}

/// A buy is asked for only within the limits of the account: there is money left, less than
/// 2% of the day's first equity is lost, no more than 1% in the session, less than 15% from
/// the peak, and the market is liquid. It is also asked for only on a signal, and the
/// position is to get the stop of that signal, under the price.
pub proof fn law_buys_keep_the_limits(v: TickView)
    requires
        v.entry_planned().1.request is BuyMarket,
        v.state.ok(),
        v.base.ok(),
        v.base.market.price > -LIMIT,
    ensures
        v.state.equity_usdt > 0,
        v.state.daily_loss_start_equity_usdt > 0 ==> 50 * (v.state.daily_loss_start_equity_usdt
            - v.state.equity_usdt) < v.state.daily_loss_start_equity_usdt,
        100 * v.state.session_pnl_usdt >= -v.state.equity_usdt,
        v.state.peak_equity_usdt > 0 ==> 100 * (v.state.peak_equity_usdt - v.state.equity_usdt) < 15
            * v.state.peak_equity_usdt,
        v.base.reading.regime != Regime::Illiquid,
        !v.base.reading.bearish_bias,
        !v.base.market.stale_any,
        v.state.trades_today < v.base.set.max_trades_per_day,
        v.signal().action == Action::EnterLong,
        v.entry_planned().0.phase is Buying,
        v.entry_planned().0.phase->Buying_stop < v.base.market.price,
        v.signal().stop_price is Some,
        -LIMIT <= v.signal().stop_price->0 <= LIMIT ==> v.entry_planned().0.phase->Buying_stop
            == v.signal().stop_price->0,
        v.entry_planned().0.phase->Buying_qty == v.entry_planned().1.request->BuyMarket_qty,
        v.entry_planned().0.state == v.state,
        v.entry_planned().1.save,
{
    reveal(TickView::signal);
    reveal(TickView::sized);
    let b = v.base;
    law_entries_are_ranked(
        b.reading.regime,
        b.features,
        b.market.price as int,
        b.reading.vol_ratio as int,
        b.reading.vol_squeeze,
        b.reading.htf_bullish,
        b.reading.bearish_bias,
        b.set.signals,
    );
    if !b.reading.bearish_bias {
        law_best_strategy_enters(
            b.reading.regime,
            b.features,
            b.market.price as int,
            b.reading.vol_ratio as int,
            b.reading.vol_squeeze,
            b.reading.htf_bullish,
            b.set.signals,
        );
    }
    let g = account_gate(
        b.reading.regime,
        Some(v.state.equity_usdt),
        v.state.peak_equity_usdt as int,
        v.state.daily_loss_start_equity_usdt as int,
        v.state.session_pnl_usdt as int,
    );
    assert(g is None);
}

/// Where the account's limits call for a rest, the bot hibernates for a day instead of
/// buying.
pub proof fn law_heavy_losses_hibernate(v: TickView)
    requires
        !v.base.market.stale_any,
        v.state.trades_today < v.base.set.max_trades_per_day,
        v.signal().action == Action::EnterLong,
        v.base.market.now_ms <= 1_000_000_000_000_000_000,
        v.state.equity_usdt <= 0 || (v.state.daily_loss_start_equity_usdt > 0 && 50 * (
        v.state.daily_loss_start_equity_usdt - v.state.equity_usdt)
            >= v.state.daily_loss_start_equity_usdt),
    ensures
        v.entry_planned().0.state.hibernation_until_ms == v.base.market.now_ms + 86_400_000,
        v.entry_planned().0.decision == Decision::Hibernate,
        v.entry_planned().1.request == Request::WrapUp,
        v.entry_planned().1.save,
{
    reveal(TickView::sized);
}

/// The position is left or held as its manager says, and its stop and peak are taken over;
/// a hold keeps everything else.
pub proof fn law_run_follows_the_manager(v: TickView, existing: Option<i128>)
    requires
        v.state.position is Long,
        v.base.set.mode != Mode::Live,
    ensures
        ({
            let (after, step) = v.exit_checked(existing);
            let j = v.judged();
            &&& j.decision == PositionDecision::Hold ==> step.request == Request::WrapUp
                && after.decision == Decision::HoldLong && after.state == (BotState {
                position: j.position,
                ..v.state
            })
            &&& j.decision == PositionDecision::ExitLong ==> step.request is SellMarket
                || after.decision == Decision::Wait
            &&& j.decision == PositionDecision::ExitLong ==> step.note == (Note::Leaving {
                qty: j.position->Long_qty,
                entry_price: j.position->entry_price,
            })
        }),
{
}

/// In a range the position is left once the price is back at the middle band, has earned the
/// fees and the slippage of both ways, and the strength index is at 50; nowhere else on
/// those grounds.
pub proof fn law_range_exit_conditions(v: TickView)
    requires
        v.state.position is Long,
    ensures
        v.range_done(v.state.position->entry_price as int) <==> {
            &&& v.base.reading.regime == Regime::Ranging
            &&& v.base.market.price >= v.base.features.bb_mid20_5m
            &&& v.base.market.price * 10_000_000_000_000_000 >= v.state.position->entry_price * (
            10_000_000_000_000_000 + 2 * v.base.set.taker_fee_bps + 2 * v.base.set.slippage_bps)
            &&& v.base.features.rsi14_5m >= 50_000_000_000_000
        },
        v.range_done(v.state.position->entry_price as int) ==> v.judged().decision
            == PositionDecision::ExitLong && v.judged().position == v.state.position,
{
    let e = v.state.position->entry_price as int;
    let c = 2 * (v.base.set.taker_fee_bps + v.base.set.slippage_bps);
    assert(e * (10_000 * ONE + c) == e * (10_000_000_000_000_000 + 2 * v.base.set.taker_fee_bps + 2
        * v.base.set.slippage_bps)) by (nonlinear_arith)
        requires
            c == 2 * (v.base.set.taker_fee_bps + v.base.set.slippage_bps),
    ;
}

/// Coins that the bot did not buy are sold only by a live run with both switches on, and
/// only what is free, in whole steps.
pub proof fn law_foreign_coins_are_sold_on_request_only(v: TickView)
    requires
        v.external().1.request is SellMarket,
        !(v.external().1.note is Leaving),
        v.base.market.step_size > 0,
        v.external().0.phase == Phase::EmergencySell,
    ensures
        v.base.set.mode == Mode::Live,
        v.base.set.allow_external,
        v.base.set.panic_flatten,
        ({
            let qty = step_down(v.base.wallet.btc_free as int, v.base.market.step_size as int);
            v.base.wallet.btc_free - v.base.market.step_size < qty <= v.base.wallet.btc_free
        }),
{
    law_step_down(v.base.wallet.btc_free as int, v.base.market.step_size as int);
}

/// A free, living and rested bot buys what it is allowed: on fresh data, within the daily limit,
/// on a signal to enter and with an allowed size that the exchange takes, that size is bought
/// at the market.
pub proof fn law_allowed_entry_is_bought(v: TickView)
    requires
        v.state.position == Position::Flat,
        !v.state.is_dead,
        v.base.market.now_ms >= v.state.hibernation_until_ms,
        v.base.market.now_ms >= v.state.cooldown_until_ms,
        !v.base.market.stale_any,
        v.state.trades_today < v.base.set.max_trades_per_day,
        v.signal().action == Action::EnterLong,
        v.sized(saturated(v.signal().stop_price->0)) is Some,
        v.sized(saturated(v.signal().stop_price->0))->0 is Allow,
        ({
            let qty = v.sized(saturated(v.signal().stop_price->0))->0->qty;
            v.base.market.price * qty >= v.base.market.min_notional * ONE && i128::MIN <= qty
                <= i128::MAX
        }),
    ensures
        v.gated().1.request is BuyMarket,
        v.gated().1.request->BuyMarket_qty == v.sized(
            saturated(v.signal().stop_price->0),
        )->0->qty,
        v.gated().1.save,
        v.gated().0.state == v.state,
        v.gated().0.phase is Buying,
        v.gated().0.phase->Buying_stop == saturated(v.signal().stop_price->0),
{
}

/// Without a signal to enter nothing is bought and nothing changes; the reason is the signal's.
pub proof fn law_no_signal_no_entry(v: TickView)
    requires
        v.state.position == Position::Flat,
        v.signal().action != Action::EnterLong,
    ensures
        !(v.gated().1.request is BuyMarket) && !(v.gated().1.request is SellMarket),
        v.gated().0.state == v.state,
        v.gated().0.decision == Decision::Wait || v.gated().0.decision == Decision::Stop,
{
}

/// A buy that is pending is waited for while its fill is not known; once it is dead without a
/// fill it is forgotten, and with a fill it goes on at the stop that was noted.
pub proof fn law_pending_buy_is_cleared_up(v: TickView, order_id: u64, f: OrderFacts)
    requires
        v.phase == (Phase::PendingStatus { order_id }),
        f.executed is Some,
        f.executed->0 > 0 ==> f.quote is Some,
    ensures
        ({
            let (after, step) = v.next(Event::OrderInfo { facts: Some(f) });
            &&& f.executed->0 > 0 ==> {
                &&& step.request == (Request::QueryTrades { order_id })
                &&& after.state == v.state
                &&& after.phase is BuyTrades
                &&& after.phase->BuyTrades_qty == f.executed->0
                &&& v.state.pending_entry_stop_price is Some ==> after.phase->BuyTrades_stop
                    == v.state.pending_entry_stop_price->0
            }
            &&& f.executed->0 <= 0 && f.state != OrderState::Dead ==> {
                &&& after.state == v.state
                &&& after.decision == Decision::Wait
                &&& step.request == Request::Finish
            }
        }),
        ({
            let (after, step) = v.next(Event::OrderInfo { facts: None });
            &&& after.state == v.state
            &&& after.decision == Decision::Wait
            &&& step.request == Request::Finish
        }),
{
}

/// The order of a position that is gone is forgotten once it is cancelled or unknown, and kept
/// in mind where it could not be cancelled.
pub proof fn law_orphaned_stop_is_forgotten_when_gone(v: TickView, result: CancelResult)
    requires
        v.phase == Phase::OrphanCancel,
        v.state.position == Position::Flat,
        v.base.wallet.all_btc() <= BTC_DUST,
        v.state.is_dead,
    ensures
        result == CancelResult::Failed ==> v.next(Event::Canceled { result }).0.state == v.state,
        result != CancelResult::Failed ==> v.next(
            Event::Canceled { result },
        ).0.state.last_stop_order_id is None,
{
}

/// An emergency sale that is accepted leaves nothing and rests for an hour; one that fails
/// changes nothing.
pub proof fn law_emergency_sale_rests_for_an_hour(v: TickView, order_id: Option<u64>)
    requires
        v.phase == Phase::EmergencySell,
        v.base.market.now_ms <= 1_000_000_000_000_000_000,
    ensures
        ({
            let (after, step) = v.next(
                Event::Sold { result: OrderResult::Accepted { order_id } },
            );
            &&& after.state.position == Position::Flat
            &&& after.state.cooldown_until_ms == v.base.market.now_ms + 3_600_000
            &&& after.state.equity_usdt == v.state.equity_usdt
            &&& after.state.trades_today == v.state.trades_today
            &&& after.decision == Decision::Sell
            &&& step.save && step.request == Request::Finish
        }),
        ({
            let (after, step) = v.next(Event::Sold { result: OrderResult::Failed });
            after.state == v.state && step.request == Request::Fail
        }),
{
}

/// A sale that failed leaves the position as it is; one that was accepted is asked about where
/// it is a live one, and otherwise the position is left.
pub proof fn law_sale_is_followed_up(v: TickView, order_id: Option<u64>)
    requires
        v.phase == Phase::ExitSell,
        v.state.position is Long,
        v.base.market.now_ms <= 1_000_000_000_000_000_000,
    ensures
        ({
            let (after, step) = v.next(Event::Sold { result: OrderResult::Failed });
            after.state == v.state && step.request == Request::Fail
        }),
        ({
            let (after, step) = v.next(
                Event::Sold { result: OrderResult::Accepted { order_id } },
            );
            let asked = v.base.set.mode == Mode::Live && order_id is Some;
            &&& after.decision == Decision::ExitLong
            &&& asked ==> {
                &&& step.request == (Request::QueryOrder { order_id: order_id->0 })
                &&& after.state == v.state
                &&& after.phase == (Phase::ExitStatus { order_id: order_id->0 })
            }
            &&& !asked ==> {
                &&& after.state.position == Position::Flat
                &&& after.state.cooldown_until_ms == v.base.market.now_ms + 3_600_000
                &&& step.request == Request::WrapUp
                &&& step.note is Exited
                &&& step.note->Exited_qty == v.state.position->Long_qty
                &&& step.note->Exited_entry_price == v.state.position->entry_price
                &&& step.note->exit_price == v.base.market.price
            }
        }),
{
}

/// Once the stop order is cancelled, whatever became of it, what was to be sold is sold, and what
/// was to be protected is protected anew at the higher stop.
pub proof fn law_cancelled_stop_makes_way(
    v: TickView,
    result: CancelResult,
    qty: i128,
    stop: i128,
)
    requires
        v.state.position is Long,
    ensures
        v.phase == (Phase::ExitCancel { sell_qty: qty }) ==> {
            let (after, step) = v.next(Event::Canceled { result });
            &&& step.request == (Request::SellMarket { qty })
            &&& after.phase == Phase::ExitSell
            &&& after.state.position is Long && after.state.position->stop_order_id is None
            &&& after.state.position->Long_qty == v.state.position->Long_qty
        },
        v.phase == (Phase::StopCancel { protect_qty: qty, stop }) ==> {
            let (after, step) = v.next(Event::Canceled { result });
            &&& step.request is PlaceStop
            &&& step.request->PlaceStop_qty == qty
            &&& step.request->stop_price == stop
            &&& after.phase == (Phase::StopPlace { stop })
            &&& after.state.position is Long && after.state.position->stop_order_id is None
        },
{
}

/// A stop that the exchange accepted is noted with its price; without that the position stays as
/// it is.
pub proof fn law_accepted_stop_is_noted(v: TickView, stop: i128, result: OrderResult)
    requires
        v.phase == (Phase::StopPlace { stop }),
        v.state.position is Long,
        stop > 0,
    ensures
        ({
            let (after, step) = v.next(Event::StopPlaced { result });
            let id = result->order_id;
            &&& step.request == Request::WrapUp && step.save
            &&& result is Accepted && id is Some ==> {
                &&& after.state.position->stop_order_id == id
                &&& after.state.position->exchange_stop_price == Some(stop)
                &&& after.state.last_stop_order_id == id
                &&& after.state.position->Long_qty == v.state.position->Long_qty
                &&& after.state.position->stop_price == v.state.position->stop_price
            }
            &&& !(result is Accepted) || id is None ==> after.state == v.state
        }),
{
}

/// A stop order that is found on the exchange is taken as the position's own, with its price
/// where it can be read.
pub proof fn law_found_stop_is_adopted(v: TickView, o: OpenOrder)
    requires
        v.state.position is Long,
    ensures
        ({
            let after = v.adopted(o);
            &&& o.stop_price is None ==> after.position->stop_order_id == Some(o.order_id)
            &&& o.stop_price is Some && fixed_value(o.stop_price->0@) is None ==> after == v.state
            &&& o.stop_price is Some && fixed_value(o.stop_price->0@) is Some ==> {
                &&& after.position->stop_order_id == Some(o.order_id)
                &&& after.last_stop_order_id == Some(o.order_id)
                &&& fixed_value(o.stop_price->0@)->0 > 0 ==> after.position->exchange_stop_price
                    == fixed_value(o.stop_price->0@)
            }
            &&& after.position->Long_qty == v.state.position->Long_qty
            &&& after.position->entry_price == v.state.position->entry_price
        }),
{
}

} // verus!
