use binance_survival_bot::account::SpotBalances;
use binance_survival_bot::binance_orders::{MyTrade, OpenOrder, OrderState};
use binance_survival_bot::execution::Mode;
use binance_survival_bot::features::Features;
use binance_survival_bot::pipeline::{
    close_books_on, early_summary, end_message, needs_refresh, outcome_of, waiting, EarlyEnd, Refresh,
};
use binance_survival_bot::regime::Regime;
use binance_survival_bot::signals::SignalSettings;
use binance_survival_bot::start::{start_step, StartAsk, StartEvent, StartPhase};
use binance_survival_bot::state::{BotState, Position};
use binance_survival_bot::tick::{
    Alert, CancelResult, Decision, Event, Market, Note, OrderFacts, OrderResult, Reading, Request,
    Step, Tick, TickBase, TickSettings,
};

fn fx(v: f64) -> i128 {
    (v * 1e12).round() as i128
}

const NOW: u64 = 1_700_000_000_000;

fn features() -> Features {
    Features {
        ema20_1h: 0,
        ema50_1h: 0,
        ema200_1h: 0,
        ema20_5m: 0,
        ema50_5m: 0,
        atr14_5m: fx(10.0),
        atr14_1m: fx(10.0),
        atr_ratio_5m: fx(1.0),
        bb_mid20_5m: 0,
        bb_upper_5m: 0,
        bb_lower_5m: 0,
        bb_width_5m: 0,
        rsi14_5m: fx(50.0),
        rsi14_1m: fx(50.0),
        donchian_high20_5m: fx(200.0),
        donchian_low20_5m: 0,
        rv_short: 0,
        rv_long: 0,
        volume_z: fx(1.0),
        ema20_1m: 0,
        velocity_1m: 0,
        velocity_5m: 0,
        last_close_1m: fx(250.0),
        last_close_5m: fx(250.0),
        last_close_1h: 0,
    }
}

fn base(mode: Mode) -> TickBase {
    TickBase {
        set: TickSettings {
            mode,
            allow_external: false,
            panic_flatten: false,
            max_notional_fraction: fx(0.2),
            max_notional_usdt: None,
            taker_fee_bps: fx(10.0),
            slippage_bps: fx(5.0),
            max_trades_per_day: 3,
            risk_multiplier: fx(1.0),
            signals: SignalSettings::default(),
        },
        market: Market {
            price: fx(260.0),
            step_size: fx(0.001),
            tick_size: fx(0.01),
            min_notional: fx(5.0),
            stale_any: false,
            lag_5m_ms: 0,
            lag_1h_ms: 0,
            now_ms: NOW,
        },
        wallet: SpotBalances { usdt_free: fx(1000.0), usdt_locked: 0, btc_free: 0, btc_locked: 0 },
        features: features(),
        reading: Reading {
            regime: Regime::Trending,
            vol_ratio: fx(1.2),
            vol_squeeze: false,
            htf_bullish: true,
            bearish_bias: false,
        },
    }
}

fn flat() -> BotState {
    BotState::new_on(fx(1000.0), "20231114".to_string())
}

fn long(entry: f64, stop: f64) -> BotState {
    let mut st = flat();
    st.enter_long(fx(entry), fx(0.5), fx(stop), None, NOW - 1_000);
    st
}

fn accepted(id: u64) -> OrderResult {
    OrderResult::Accepted { order_id: Some(id) }
}

fn facts(state: OrderState, executed: f64, quote: f64) -> Option<OrderFacts> {
    Some(OrderFacts { state, executed: Some(fx(executed)), quote: Some(fx(quote)), stop: None })
}

fn fee(amount: &str) -> Vec<MyTrade> {
    vec![MyTrade {
        order_id: 7,
        commission: amount.to_string(),
        commission_asset: "USDT".to_string(),
    }]
}

fn bought_qty(s: &Step) -> i128 {
    match s.request {
        Request::BuyMarket { qty } => qty,
        _ => panic!("expected a buy, got {:?}", s.request),
    }
}

#[test]
fn a_live_entry_is_filled_charged_and_protected() {
    let mut t = Tick::new(base(Mode::Live), flat());
    let s = t.begin();
    assert!(s.save);
    let qty = bought_qty(&s);
    assert!(qty > 0);
    // No more than a fifth of the equity.
    assert!(qty * 260 <= fx(200.0));

    let s = t.step(Event::Bought { result: accepted(7) });
    assert_eq!(s.request, Request::QueryOrder { order_id: 7 });
    assert!(s.save);
    assert_eq!(t.state.pending_entry_order_id, Some(7));

    let s = t.step(Event::OrderInfo { facts: facts(OrderState::Filled, 0.5, 131.0) });
    assert_eq!(s.request, Request::QueryTrades { order_id: 7 });

    let s = t.step(Event::Trades { trades: fee("0.131") });
    assert_eq!(s.note, Note::Entered);
    let stop = match s.request {
        Request::PlaceStop { qty, stop_price, limit_price } => {
            assert_eq!(qty, fx(0.5));
            assert!(limit_price < stop_price);
            stop_price
        }
        _ => panic!("expected a stop, got {:?}", s.request),
    };
    assert_eq!(t.state.fees_usdt, fx(0.131));
    assert_eq!(t.state.pending_entry_order_id, None);

    let s = t.step(Event::StopPlaced { result: accepted(8) });
    assert_eq!(s.request, Request::WrapUp);
    assert_eq!(t.decision, Decision::EnterLong);
    assert_eq!(t.state.trades_today, 1);
    match t.state.position {
        Position::Long { entry_price, qty, stop_price, stop_order_id, .. } => {
            assert_eq!(entry_price, fx(262.0));
            assert_eq!(qty, fx(0.5));
            assert_eq!(stop_price, stop);
            assert_eq!(stop_order_id, Some(8));
        }
        _ => panic!("expected long"),
    }
    assert!(needs_refresh(&t));
    let o = outcome_of(&t);
    assert_eq!(o.decision, "ENTER_LONG");
    assert_eq!(o.end, "real order sent");
}

#[test]
fn a_practice_entry_moves_no_money() {
    let mut t = Tick::new(base(Mode::Practice), flat());
    let s = t.begin();
    assert!(bought_qty(&s) > 0);
    let s = t.step(Event::Bought { result: OrderResult::Accepted { order_id: None } });
    assert_eq!(s.request, Request::WrapUp);
    assert!(matches!(t.state.position, Position::Long { stop_order_id: None, .. }));
    assert!(!needs_refresh(&t));
    assert_eq!(outcome_of(&t).end, "no money moved");
}

#[test]
fn an_unprotected_position_is_sold() {
    let mut t = Tick::new(base(Mode::Live), flat());
    t.begin();
    t.step(Event::Bought { result: accepted(7) });
    t.step(Event::OrderInfo { facts: facts(OrderState::Filled, 0.5, 130.0) });
    t.step(Event::Trades { trades: vec![] });
    let s = t.step(Event::StopPlaced { result: OrderResult::Failed });
    assert_eq!(s.request, Request::SellMarket { qty: fx(0.5) });
    let s = t.step(Event::Sold { result: accepted(9) });
    assert_eq!(s.alert, Alert::PanicFlattened);
    assert_eq!(s.request, Request::Finish);
    assert_eq!(t.state.position, Position::Flat);
    assert_eq!(t.decision, Decision::Sell);
}

#[test]
fn a_failed_panic_sale_keeps_the_position() {
    let mut t = Tick::new(base(Mode::Live), flat());
    t.begin();
    t.step(Event::Bought { result: accepted(7) });
    t.step(Event::OrderInfo { facts: facts(OrderState::Filled, 0.5, 130.0) });
    t.step(Event::Trades { trades: vec![] });
    t.step(Event::StopPlaced { result: OrderResult::Failed });
    let s = t.step(Event::Sold { result: OrderResult::Failed });
    assert_eq!(s.alert, Alert::PanicFlattenFailed);
    assert!(matches!(t.state.position, Position::Long { .. }));
    assert_eq!(t.decision.name(), "SELL_FAILED");
}

#[test]
fn a_pending_buy_is_not_lost() {
    let mut st = flat();
    st.pending_entry_order_id = Some(7);
    st.pending_entry_stop_price = Some(fx(240.0));
    let mut t = Tick::new(base(Mode::Live), st);
    let s = t.begin();
    assert_eq!(s.request, Request::QueryOrder { order_id: 7 });
    let s = t.step(Event::OrderInfo { facts: None });
    assert_eq!(s.request, Request::Finish);
    assert_eq!(t.reason, "A buy is still pending. We wait for its fill.");
    assert_eq!(t.state.pending_entry_order_id, Some(7));

    let mut again = Tick::new(base(Mode::Live), t.state);
    again.begin();
    let s = again.step(Event::OrderInfo { facts: facts(OrderState::Filled, 0.4, 104.0) });
    assert_eq!(s.request, Request::QueryTrades { order_id: 7 });
    let s = again.step(Event::Trades { trades: vec![] });
    match s.request {
        Request::PlaceStop { qty, stop_price, .. } => {
            assert_eq!(qty, fx(0.4));
            assert_eq!(stop_price, fx(240.0));
        }
        _ => panic!("expected a stop"),
    }
}

#[test]
fn a_stop_is_canceled_before_the_sale() {
    let mut st = long(300.0, 270.0);
    st.set_stop_order(5, Some(fx(270.0)));
    let mut b = base(Mode::Live);
    b.wallet.btc_locked = fx(0.5);
    let mut t = Tick::new(b, st);
    let s = t.begin();
    assert_eq!(s.request, Request::QueryOrder { order_id: 5 });
    let s = t.step(Event::OrderInfo { facts: facts(OrderState::Working, 0.0, 0.0) });
    assert_eq!(s.request, Request::CancelOrder { order_id: 5 });
    let s = t.step(Event::Canceled { result: CancelResult::Failed });
    assert_eq!(s.request, Request::SellMarket { qty: fx(0.5) });
    let s = t.step(Event::Sold { result: accepted(6) });
    assert_eq!(s.request, Request::QueryOrder { order_id: 6 });
    let s = t.step(Event::OrderInfo { facts: facts(OrderState::Filled, 0.5, 130.0) });
    assert_eq!(s.request, Request::QueryTrades { order_id: 6 });
    let s = t.step(Event::Trades { trades: fee("0.13") });
    assert_eq!(s.request, Request::WrapUp);
    assert!(matches!(s.note, Note::Exited { .. }));
    assert_eq!(t.state.position, Position::Flat);
    // Bought at 300 and sold at 260.
    assert_eq!(t.state.realized_pnl_usdt, fx(-20.0));
    assert_eq!(t.reason, "Stop hit. We exit.");
}

#[test]
fn the_exchange_may_have_sold_already() {
    let mut st = long(300.0, 270.0);
    st.set_stop_order(5, Some(fx(270.0)));
    let mut b = base(Mode::Live);
    b.wallet.btc_free = fx(0.5);
    let mut t = Tick::new(b, st);
    t.begin();
    let s = t.step(Event::OrderInfo { facts: facts(OrderState::Filled, 0.5, 135.0) });
    assert_eq!(s.request, Request::Finish);
    assert_eq!(t.state.position, Position::Flat);
    assert_eq!(t.state.last_stop_order_id, None);
}

#[test]
fn a_stop_is_replaced_only_upwards() {
    let hold = |known: f64| {
        let mut st = long(240.0, 230.0);
        st.set_stop_order(5, Some(fx(known)));
        let mut b = base(Mode::Live);
        b.wallet.btc_locked = fx(0.5);
        let mut t = Tick::new(b, st);
        t.begin();
        let s = t.step(Event::OrderInfo {
            facts: Some(OrderFacts {
                state: OrderState::Working,
                executed: Some(0),
                quote: Some(0),
                stop: Some(fx(known)),
            }),
        });
        (t, s)
    };
    // The peak is 260, so the stop rises to 260 - 2.2 * 10 = 238.
    let (mut t, s) = hold(230.0);
    assert_eq!(s.request, Request::CancelOrder { order_id: 5 });
    let s = t.step(Event::Canceled { result: CancelResult::Done });
    match s.request {
        Request::PlaceStop { stop_price, .. } => assert_eq!(stop_price, fx(238.0)),
        _ => panic!("expected a stop"),
    }
    let s = t.step(Event::StopPlaced { result: accepted(6) });
    assert_eq!(s.request, Request::WrapUp);
    assert_eq!(t.decision, Decision::HoldLong);
    let (_, s) = hold(239.0);
    assert_eq!(s.request, Request::WrapUp);
}

#[test]
fn a_lost_stop_is_found_again() {
    let mut b = base(Mode::Live);
    b.wallet.btc_locked = fx(0.5);
    let mut t = Tick::new(b, long(255.0, 235.0));
    let s = t.begin();
    assert_eq!(s.request, Request::ListOpenOrders);
    let order = OpenOrder {
        symbol: None,
        order_id: 77,
        status: Some("NEW".to_string()),
        order_type: Some("STOP_LOSS_LIMIT".to_string()),
        side: Some("SELL".to_string()),
        stop_price: Some("235.00".to_string()),
        orig_qty: None,
    };
    let s = t.step(Event::OpenOrders { orders: Some(vec![order]) });
    assert_eq!(s.request, Request::WrapUp);
    assert_eq!(t.state.last_stop_order_id, Some(77));
}

#[test]
fn a_position_without_coins_is_closed_and_its_stop_canceled() {
    let mut st = long(255.0, 235.0);
    st.set_stop_order(5, Some(fx(235.0)));
    let mut t = Tick::new(base(Mode::Live), st);
    let s = t.begin();
    assert_eq!(s.request, Request::CancelOrder { order_id: 5 });
    assert!(s.save);
    t.step(Event::Canceled { result: CancelResult::Unknown });
    assert_eq!(t.state.last_stop_order_id, None);
    assert_eq!(t.state.position, Position::Flat);
    assert_eq!(t.reason, "We wait. Not time yet.");
}

#[test]
fn coins_of_others_are_left_alone() {
    let mut b = base(Mode::Live);
    b.wallet.btc_free = fx(0.5);
    let mut t = Tick::new(b, flat());
    let s = t.begin();
    assert_eq!(s.request, Request::Finish);
    assert!(matches!(t.state.position, Position::ExternalInventory { .. }));
    assert_eq!(t.reason, "Wallet and memory did not match. I will not trade until fixed.");

    let mut sell = b;
    sell.set.allow_external = true;
    sell.set.panic_flatten = true;
    let mut u = Tick::new(sell, t.state);
    let s = u.begin();
    assert_eq!(s.request, Request::SellMarket { qty: fx(0.5) });
    u.step(Event::Sold { result: accepted(1) });
    assert_eq!(u.reason, "Emergency sell. We flatten.");
}

#[test]
fn what_holds_the_bot_back() {
    let mut dead = flat();
    dead.is_dead = true;
    let mut t = Tick::new(base(Mode::Live), dead);
    assert_eq!(t.begin().request, Request::Finish);
    assert_eq!(t.reason, "We lost too much. Bot is dead.");
    assert_eq!(t.decision, Decision::Stop);

    let mut resting = flat();
    resting.hibernation_until_ms = NOW + 1;
    let mut t = Tick::new(base(Mode::Live), resting);
    t.begin();
    assert_eq!(t.reason, "We wait. Not time yet.");

    let mut b = base(Mode::Live);
    b.market.stale_any = true;
    b.market.lag_5m_ms = 20 * 60_000;
    let mut t = Tick::new(b, flat());
    t.begin();
    assert_eq!(t.reason, "Market data is delayed (5m: 20m, 1h: 0m). Waiting for fresh data.");

    let mut busy = flat();
    busy.trades_today = 3;
    let mut t = Tick::new(base(Mode::Live), busy);
    t.begin();
    assert_eq!(t.reason, "Daily trade limit reached. Resting until the next session.");

    let mut b = base(Mode::Live);
    b.reading.bearish_bias = true;
    let mut t = Tick::new(b, flat());
    assert_eq!(t.begin().request, Request::WrapUp);
    assert_eq!(t.decision, Decision::Wait);

    let mut hurt = flat();
    hurt.daily_loss_start_equity_usdt = fx(1100.0);
    let mut t = Tick::new(base(Mode::Live), hurt);
    t.begin();
    assert_eq!(t.decision, Decision::Hibernate);
    assert_eq!(t.state.hibernation_until_ms, NOW + 86_400_000);
}

#[test]
fn an_unexpected_event_fails_the_run() {
    let mut t = Tick::new(base(Mode::Live), flat());
    t.begin();
    let s = t.step(Event::Canceled { result: CancelResult::Done });
    assert_eq!(s.request, Request::Fail);
    assert_eq!(t.state.position, Position::Flat);
    let s = t.step(Event::Bought { result: accepted(7) });
    assert_eq!(s.request, Request::Fail);
}

#[test]
fn the_books_are_closed() {
    let mut t = Tick::new(base(Mode::Live), flat());
    t.begin();
    t.did_place_order = true;
    assert!(close_books_on(&mut t, Refresh::Failed, 0, "20231114".to_string()).is_err());
    let wallet = SpotBalances {
        usdt_free: fx(900.0),
        usdt_locked: 0,
        btc_free: fx(0.5),
        btc_locked: 0,
    };
    let r = close_books_on(&mut t, Refresh::Wallet { wallet }, 0, "20231114".to_string());
    assert!(r.is_ok());
    assert_eq!(t.state.equity_usdt, fx(1030.0));
    t.did_place_order = false;
    close_books_on(&mut t, Refresh::NotAsked, fx(1001.0), "20231114".to_string()).unwrap();
    assert_eq!(t.state.equity_usdt, fx(1001.0));
    assert_eq!(end_message(Mode::Practice, true), "no money moved");
    let w = waiting(Mode::Live, Regime::Ranging, "no key");
    assert_eq!(w.decision, "WAIT");
    assert_eq!(w.reason, "no key");
}

#[test]
fn a_practice_run_never_touches_the_live_exchange() {
    let live_only = |r: Request| {
        matches!(
            r,
            Request::CancelOrder { .. }
                | Request::QueryOrder { .. }
                | Request::QueryTrades { .. }
                | Request::PlaceStop { .. }
                | Request::ListOpenOrders
        )
    };
    let events = || {
        vec![
            Event::Bought { result: accepted(7) },
            Event::OrderInfo { facts: facts(OrderState::Filled, 0.5, 130.0) },
            Event::Trades { trades: vec![] },
            Event::StopPlaced { result: OrderResult::Failed },
            Event::Sold { result: accepted(8) },
        ]
    };
    for st in [flat(), long(300.0, 270.0), long(240.0, 230.0)] {
        let mut b = base(Mode::Practice);
        if st.position != Position::Flat {
            b.wallet.btc_free = fx(0.5);
        }
        let mut t = Tick::new(b, st);
        assert!(!live_only(t.begin().request));
        for e in events() {
            assert!(!live_only(t.step(e).request));
        }
    }
}

#[test]
fn a_dead_bot_never_buys() {
    let mut st = flat();
    st.is_dead = true;
    st.pending_entry_order_id = Some(7);
    let mut t = Tick::new(base(Mode::Live), st);
    assert_eq!(t.begin().request, Request::QueryOrder { order_id: 7 });
    let s = t.step(Event::OrderInfo { facts: facts(OrderState::Dead, 0.0, 0.0) });
    assert_eq!(s.request, Request::Finish);
    assert!(t.state.is_dead);
    assert_eq!(t.state.pending_entry_order_id, None);
}

#[test]
fn a_range_exit_earns_its_costs() {
    let exit_at = |price: f64| {
        let mut b = base(Mode::Practice);
        b.wallet.btc_free = fx(0.5);
        b.reading.regime = Regime::Ranging;
        b.market.price = fx(price);
        let mut t = Tick::new(b, long(260.0, 230.0));
        t.begin();
        t.why
    };
    // Both ways cost 2 * (10 + 5) hundredths of a percent: 260 * 1.003 = 260.78.
    assert_ne!(exit_at(260.77), "Mean reversion done. We take profit.");
    assert_eq!(exit_at(260.78), "Mean reversion done. We take profit.");
}

#[test]
fn the_range_exit_earns_its_costs_exactly() {
    let exit_at = |price: i128| -> String {
        let mut b = base(Mode::Practice);
        b.set.taker_fee_bps = fx(10.0);
        b.set.slippage_bps = fx(20.0);
        b.reading.regime = Regime::Ranging;
        b.features.rsi14_5m = fx(50.0);
        b.market.price = price;
        b.market.min_notional = 0;
        b.wallet.btc_free = fx(0.5);
        let mut st = flat();
        // Entry at 1.000000000001: with costs of 0.6%, 1.006000000001006.
        st.enter_long(1_000_000_000_001, fx(0.5), fx(0.5), None, NOW - 1_000);
        let mut t = Tick::new(b, st);
        t.begin();
        t.why
    };
    assert_ne!(exit_at(1_006_000_000_001), "Mean reversion done. We take profit.");
    assert_eq!(exit_at(1_006_000_000_002), "Mean reversion done. We take profit.");
}

#[test]
fn the_sale_of_an_unprotected_pending_buy_is_an_order() {
    let mut st = flat();
    st.pending_entry_order_id = Some(7);
    st.pending_entry_stop_price = Some(fx(240.0));
    let mut t = Tick::new(base(Mode::Live), st);
    t.begin();
    t.step(Event::OrderInfo { facts: facts(OrderState::Filled, 0.4, 104.0) });
    let s = t.step(Event::Trades { trades: vec![] });
    assert_eq!(s.note, Note::Entered);
    assert!(!t.did_place_order);
    let s = t.step(Event::StopPlaced { result: OrderResult::Failed });
    assert_eq!(s.request, Request::SellMarket { qty: fx(0.4) });
    t.step(Event::Sold { result: accepted(9) });
    assert!(t.did_place_order);
    assert_eq!(outcome_of(&t).end, "real order sent");
}

#[test]
fn decisions_are_noted_when_they_are_made() {
    let mut t = Tick::new(base(Mode::Live), flat());
    let s = t.begin();
    let bought = bought_qty(&s);
    match s.note {
        Note::Sized { qty, notional, stop, cap, was_capped } => {
            assert_eq!(qty, bought);
            assert_eq!(notional, qty * 260);
            assert_eq!(stop, fx(242.0));
            assert_eq!(cap, fx(200.0));
            assert!(!was_capped);
        }
        _ => panic!("expected a size, got {:?}", s.note),
    }
    let mut b = base(Mode::Practice);
    b.wallet.btc_free = fx(0.5);
    let mut t = Tick::new(b, long(300.0, 270.0));
    let s = t.begin();
    assert_eq!(s.note, Note::Leaving { qty: fx(0.5), entry_price: fx(300.0) });
    assert_eq!(s.request, Request::SellMarket { qty: fx(0.5) });
}

#[test]
fn an_early_end_is_summed_up() {
    assert_eq!(early_summary(EarlyEnd::NoHistory), Some(("NoState", "not_enough_candle_history")));
    assert_eq!(early_summary(EarlyEnd::NoWallet), Some(("WatchOnly", "no_wallet_access")));
    assert_eq!(early_summary(EarlyEnd::KeyRefused), None);
    assert_eq!(early_summary(EarlyEnd::Dead), None);
}

#[test]
fn a_position_of_less_than_a_step_cannot_be_sold() {
    let mut t = Tick::new(base(Mode::Live), flat());
    t.begin();
    t.step(Event::Bought { result: accepted(7) });
    t.step(Event::OrderInfo { facts: facts(OrderState::Filled, 0.0004, 0.104) });
    t.step(Event::Trades { trades: vec![] });
    let s = t.step(Event::StopPlaced { result: OrderResult::Failed });
    assert_eq!(s.request, Request::Finish);
    assert_eq!(s.alert, Alert::PanicFlattenFailed);
    assert!(matches!(t.state.position, Position::Long { .. }));
    assert_eq!(t.decision.name(), "SELL_FAILED");
}

#[test]
fn early_ends_come_in_order() {
    let run = |events: &[StartEvent]| -> StartAsk {
        let mut phase = StartPhase::Begin;
        let mut ask = StartAsk::Fail;
        for e in events {
            let (next, a) = start_step(phase, *e);
            phase = next;
            ask = a;
        }
        ask
    };
    let market = StartEvent::Market { regime: Regime::Trending };
    let yes = StartEvent::Opened { may_ask: true };
    let no = StartEvent::Opened { may_ask: false };
    assert_eq!(run(&[yes]), StartAsk::Account);
    assert_eq!(run(&[yes, StartEvent::Wallet]), StartAsk::Market { with_rules: true });
    assert_eq!(run(&[yes, StartEvent::Wallet, market]), StartAsk::Books);
    assert_eq!(run(&[yes, StartEvent::Wallet, market, StartEvent::Alive]), StartAsk::Run);
    assert_eq!(
        run(&[yes, StartEvent::Wallet, market, StartEvent::Dead]),
        StartAsk::End { regime: Some(Regime::Trending), end: EarlyEnd::Dead }
    );
    assert_eq!(
        run(&[yes, StartEvent::Refused]),
        StartAsk::End { regime: None, end: EarlyEnd::KeyRefused }
    );
    assert_eq!(run(&[no]), StartAsk::Market { with_rules: false });
    assert_eq!(
        run(&[no, StartEvent::NoHistory]),
        StartAsk::End { regime: None, end: EarlyEnd::NoHistory }
    );
    assert_eq!(
        run(&[no, market]),
        StartAsk::End { regime: Some(Regime::Trending), end: EarlyEnd::NoWallet }
    );
    assert_eq!(run(&[yes, StartEvent::Failed]), StartAsk::Fail);
    assert_eq!(run(&[yes, StartEvent::Refused, market]), StartAsk::Fail);
}
