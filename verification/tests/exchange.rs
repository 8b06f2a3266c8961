use binance_survival_bot::account::{
    account_query, after_account_reply, api_error, read_balances, truncate_chars, AccountStep,
    Balance,
};
use binance_survival_bot::binance_auth::{
    begin_time_sync, note_server_time, now_ms, now_ms_with_offset, server_ms_at, server_ms_of,
    set_time_offset_ms, sign_hmac_sha256_hex, signed_url, stamp_query, time_offset_ms, ServerClock,
};
use binance_survival_bot::binance_orders::{
    avg_price_from_order_status, client_id_query, fee_usdt_from_trades, generate_client_order_id,
    latest_stop, must_look_up, order_id_query, placement_query, read_order_state, settle_placement,
    symbol_query, MyTrade, OpenOrder, OrderAck, OrderState, OrderStatus, PlacementReply,
};
use binance_survival_bot::exchange_info::{
    default_rules, symbol_rules, ExchangeInfo, Filter, RulesError, SymbolInfo,
};
use binance_survival_bot::execution::{
    is_live_trading_confirmed, is_live_trading_enabled, market_order, mode_from_latches,
    mode_log_line, mode_name, price_precision_from_tick, qty_precision_from_step, refuses_key,
    stop_loss_limit_sell, Endpoint, Mode, OrderRefusal, Side,
};
use binance_survival_bot::http_policy::{
    after_attempt, backoff_for_attempt, is_retryable_status, jitter_add, parse_retry_after,
    policy_with, splitmix64, Attempt, HttpPolicy, Next, PolicySettings,
};
use binance_survival_bot::json::{
    count_in, flag_in, number_in, reply_count, reply_flag, reply_number, reply_text, text_in, Field,
    ReplyError,
};
use binance_survival_bot::order::NewOrder;

fn fx(v: f64) -> i128 {
    (v * 1e12).round() as i128
}

fn status(qty: &str, quote: &str) -> OrderStatus {
    OrderStatus {
        symbol: "BTCUSDT".to_string(),
        order_id: 999888777,
        status: "FILLED".to_string(),
        executed_qty: qty.to_string(),
        cummulative_quote_qty: quote.to_string(),
        price: None,
        stop_price: None,
        side: None,
        order_type: None,
    }
}

#[test]
fn live_flag_only_when_one() {
    assert!(!is_live_trading_enabled(None));
    assert!(!is_live_trading_enabled(Some("0")));
    assert!(!is_live_trading_enabled(Some("yes")));
    assert!(is_live_trading_enabled(Some("1")));
}

#[test]
fn mode_log_is_plain() {
    assert!(mode_log_line(Mode::Practice).contains("PRACTICE"));
    assert!(mode_log_line(Mode::Live).contains("LIVE"));
}

#[test]
fn live_needs_both_latches() {
    assert_eq!(mode_from_latches(Some("1"), Some("YES")), Mode::Live);
    assert_eq!(mode_from_latches(Some("1"), None), Mode::Practice);
    assert_eq!(mode_from_latches(None, Some("YES")), Mode::Practice);
    assert!(!is_live_trading_confirmed(Some("yes")));
    assert!(refuses_key(Mode::Live, true));
    assert!(!refuses_key(Mode::Live, false));
    assert!(!refuses_key(Mode::Practice, true));
    assert_eq!(mode_name(Mode::Live), "Live");
}

#[test]
fn practice_mode_never_calls_live_order_endpoint() {
    let p = market_order(Mode::Practice, Side::Buy, "BTCUSDT", fx(0.001), 5).unwrap();
    assert_eq!(p.endpoint.path(), "/api/v3/order/test");
    let s = stop_loss_limit_sell(Mode::Practice, "BTCUSDT", fx(0.001), 5, fx(90.0), fx(89.0), 2)
        .unwrap();
    assert_eq!(s.endpoint, Endpoint::TestOrder);
    let l = market_order(Mode::Live, Side::Sell, "BTCUSDT", fx(0.001), 5).unwrap();
    assert_eq!(l.endpoint.path(), "/api/v3/order");
    assert_eq!(l.query, "symbol=BTCUSDT&side=SELL&type=MARKET&quantity=0.00100");
}

#[test]
fn orders_that_make_no_sense_are_refused() {
    let buy = market_order(Mode::Live, Side::Buy, "B", 0, 5).unwrap_err();
    assert_eq!(buy.message(), "Refusing to buy: qty <= 0");
    let sell = market_order(Mode::Live, Side::Sell, "B", -1, 5).unwrap_err();
    assert_eq!(sell.message(), "Refusing to sell: qty <= 0");
    let stop = |q: f64, s: f64, l: f64| {
        stop_loss_limit_sell(Mode::Live, "B", fx(q), 5, fx(s), fx(l), 2)
    };
    assert_eq!(stop(0.0, 9.0, 8.0).unwrap_err(), OrderRefusal::NothingToProtect);
    assert_eq!(stop(1.0, 9.0, 0.0).unwrap_err(), OrderRefusal::BadPrices);
    assert_eq!(stop(1.0, 9.0, 9.5).unwrap_err(), OrderRefusal::LimitAboveStop);
    assert_eq!(
        stop(1.0, 9.0, 8.5).unwrap().query,
        "symbol=B&side=SELL&type=STOP_LOSS_LIMIT&timeInForce=GTC&quantity=1.00000&stopPrice=9.00&price=8.50"
    );
}

#[test]
fn precisions_follow_the_steps() {
    assert_eq!(qty_precision_from_step(fx(0.00001)), 5);
    assert_eq!(qty_precision_from_step(0), 8);
    assert_eq!(price_precision_from_tick(fx(0.01)), 2);
    assert_eq!(price_precision_from_tick(fx(1.0)), 0);
    assert_eq!(price_precision_from_tick(-1), 2);
}

#[test]
fn an_order_is_a_query() {
    let o = NewOrder {
        symbol: "BTCUSDT",
        side: "BUY",
        order_type: "MARKET",
        quantity: "0.001".to_string(),
    };
    assert_eq!(o.to_query_string(), "symbol=BTCUSDT&side=BUY&type=MARKET&quantity=0.001");
}

#[test]
fn payloads_are_signed() {
    // The example of the exchange's documentation.
    let secret = "NhqPtmdSJYdKjVHjA7PZj4Mge3R5YNiP1e3UZjInClVN65XAbvqqM6A7H5fATj0j";
    let payload = "symbol=LTCBTC&side=BUY&type=LIMIT&timeInForce=GTC&quantity=1&price=0.1&recvWindow=5000&timestamp=1499827319559";
    let code = "c8db56825ae71d6d79447849e617115f4a920fa2acdcab2b053c4b2838bd6b71";
    assert_eq!(sign_hmac_sha256_hex(secret, payload), code);
    assert_eq!(
        signed_url("https://x", "/api/v3/order", payload, secret),
        format!("https://x/api/v3/order?{payload}&signature={code}")
    );
    assert_eq!(stamp_query("symbol=B", 7), "symbol=B&timestamp=7");
}

#[test]
fn the_clock_of_the_exchange_is_followed() {
    let mut c = ServerClock::default();
    assert_eq!(note_server_time(&mut c, 2_000, 1_500), 500);
    assert_eq!(server_ms_at(&c, 1_500), 2_000);
    assert_eq!(time_offset_ms(&c), 500);
    set_time_offset_ms(&mut c, -10_000);
    assert_eq!(server_ms_at(&c, 1_500), 0);
    assert_eq!(server_ms_of(&c, Some(11_500)), Some(1_500));
    assert_eq!(server_ms_of(&c, None), None);
    assert!(begin_time_sync(&mut c, 1_000_000, 60));
    assert!(!begin_time_sync(&mut c, 1_059_999, 60));
    assert!(begin_time_sync(&mut c, 1_060_000, 60));
    assert!(!begin_time_sync(&mut c, 9_060_000, 0));
    assert!(now_ms().unwrap() > 1_600_000_000_000);
    assert!(now_ms_with_offset(&c).is_some());
}

#[test]
fn place_order_reconciles_instead_of_reporting_failure_when_order_actually_placed() {
    let mut seq = 0;
    let id = generate_client_order_id(&mut seq, 1700);
    assert_eq!(id, "bot1700-0");
    let q = placement_query("symbol=BTCUSDT&side=BUY&type=MARKET&quantity=0.001", &id);
    assert_eq!(
        q,
        "symbol=BTCUSDT&side=BUY&type=MARKET&quantity=0.001&newClientOrderId=bot1700-0"
    );
    let reply = PlacementReply::Uncertain { error: "connection closed".to_string() };
    assert!(must_look_up(&reply));
    assert_eq!(client_id_query("BTCUSDT", &id), "symbol=BTCUSDT&origClientOrderId=bot1700-0");
    let ack = settle_placement(reply, Some(status("0.001", "50.00"))).unwrap();
    assert_eq!(ack.order_id, 999888777);
    assert_ne!(generate_client_order_id(&mut seq, 1700), id);
}

#[test]
fn place_order_still_reports_failure_when_order_was_never_placed() {
    let reply = PlacementReply::Uncertain { error: "connection closed".to_string() };
    let result = settle_placement(reply, None);
    assert_eq!(result.unwrap_err().error, "connection closed");
    let unreadable = PlacementReply::Unreadable { error: "bad body".to_string() };
    assert!(!must_look_up(&unreadable));
    assert_eq!(settle_placement(unreadable, None).unwrap_err().error, "bad body");
    let ack = OrderAck { symbol: "B".to_string(), order_id: 5, status: None };
    let taken = settle_placement(PlacementReply::Accepted { ack }, None).unwrap();
    assert_eq!(taken.order_id, 5);
}

#[test]
fn orders_are_asked_for() {
    assert_eq!(symbol_query("B"), "symbol=B");
    assert_eq!(order_id_query("B", 7), "symbol=B&orderId=7");
    assert_eq!(read_order_state("FILLED"), OrderState::Filled);
    assert_eq!(read_order_state("EXPIRED"), OrderState::Dead);
    assert_eq!(read_order_state("NEW"), OrderState::Working);
}

#[test]
fn fills_have_a_price_and_a_fee() {
    assert_eq!(
        avg_price_from_order_status(&status("0.001", "50.00")).unwrap(),
        Some(fx(50_000.0))
    );
    assert_eq!(avg_price_from_order_status(&status("0", "x")).unwrap(), None);
    let e = avg_price_from_order_status(&status("1", "x")).unwrap_err();
    assert_eq!(e.message(), "Bad number for cummulativeQuoteQty: x");
    let fill = |c: &str, a: &str| MyTrade {
        order_id: 1,
        commission: c.to_string(),
        commission_asset: a.to_string(),
    };
    let trades = vec![fill("0.5", "USDT"), fill("0.001", "BTC"), fill("9", "BNB")];
    assert_eq!(fee_usdt_from_trades(&trades, fx(100.0)).unwrap(), fx(0.6));
    let e = fee_usdt_from_trades(&vec![fill("?", "BNB")], fx(100.0)).unwrap_err();
    assert_eq!(e.message(), "Bad number for commission: ?");
}

#[test]
fn the_latest_stop_is_found() {
    let o = |id: u64, kind: &str, status: &str| OpenOrder {
        symbol: None,
        order_id: id,
        status: Some(status.to_string()),
        order_type: Some(kind.to_string()),
        side: Some("SELL".to_string()),
        stop_price: None,
        orig_qty: None,
    };
    let list = vec![
        o(3, "STOP_LOSS_LIMIT", "NEW"),
        o(9, "STOP_LOSS", "NEW"),
        o(12, "STOP_LOSS", "CANCELED"),
        o(20, "LIMIT", "NEW"),
    ];
    assert_eq!(latest_stop(&list), Some(1));
    assert_eq!(latest_stop(&vec![o(20, "LIMIT", "NEW")]), None);
}

#[test]
fn balances_are_read() {
    let b = |asset: &str, free: &str, locked: &str| Balance {
        asset: asset.to_string(),
        free: free.to_string(),
        locked: locked.to_string(),
    };
    let s = read_balances(&vec![
        b("USDT", "1000.50", "1"),
        b("DOGE", "?", "?"),
        b("BTC", "0.25", "0.05"),
    ])
    .unwrap();
    assert_eq!(s.usdt_free, fx(1000.5));
    assert_eq!(s.btc_free, fx(0.25));
    assert_eq!(s.btc_total(), fx(0.3));
    assert_eq!(s.usdt_total(), fx(1001.5));
    assert_eq!(s.equity(fx(100.0)), fx(1031.5));
    let e = read_balances(&vec![b("BTC", "0.1", "x")]).unwrap_err();
    assert_eq!(e.message(), "Bad number for locked: x");
}

#[test]
fn a_wrong_timestamp_is_corrected_once() {
    assert_eq!(account_query(5), "recvWindow=5000&timestamp=5");
    assert_eq!(after_account_reply(200, None, false), AccountStep::Read);
    assert_eq!(after_account_reply(400, Some(-1021), false), AccountStep::Resync);
    assert_eq!(after_account_reply(400, Some(-1021), true), AccountStep::Fail);
    assert_eq!(after_account_reply(401, Some(-2015), false), AccountStep::Fail);
    let e = api_error(401, Some(-2015), Some("no".to_string()), &"é".repeat(600));
    assert_eq!(e.body_trunc.chars().count(), 500);
    assert_eq!(truncate_chars("abc", 2), "ab");
}

fn info(filters: Vec<Filter>, status: &str) -> ExchangeInfo {
    ExchangeInfo {
        symbols: vec![SymbolInfo {
            symbol: "BTCUSDT".to_string(),
            status: status.to_string(),
            base_asset: "BTC".to_string(),
            quote_asset: "USDT".to_string(),
            filters,
        }],
    }
}

fn lot(step: &str) -> Filter {
    Filter::LOT_SIZE {
        min_qty: "0".to_string(),
        max_qty: "1".to_string(),
        step_size: step.to_string(),
    }
}

fn price_filter(tick: &str) -> Filter {
    Filter::PRICE_FILTER {
        min_price: "0".to_string(),
        max_price: "1".to_string(),
        tick_size: tick.to_string(),
    }
}

#[test]
fn the_rules_of_a_symbol_are_read() {
    let notional = || Filter::NOTIONAL { min_notional: "5.0".to_string(), apply_min_to_market: true };
    let all = info(vec![Filter::OTHER, lot("0.00001"), price_filter("0.01"), notional()], "TRADING");
    let r = symbol_rules(&all, "BTCUSDT").unwrap();
    assert_eq!(r, default_rules());
    let says = |i: &ExchangeInfo, s: &str| symbol_rules(i, s).unwrap_err().message(s);
    assert_eq!(says(&all, "X"), "X not found or not trading");
    assert_eq!(says(&info(vec![], "BREAK"), "BTCUSDT"), "BTCUSDT not found or not trading");
    assert_eq!(says(&info(vec![], "TRADING"), "BTCUSDT"), "Missing LOT_SIZE.stepSize");
    assert_eq!(
        says(&info(vec![lot("1")], "TRADING"), "BTCUSDT"),
        "Missing PRICE_FILTER.tickSize"
    );
    assert_eq!(
        says(&info(vec![lot("1"), price_filter("1")], "TRADING"), "BTCUSDT"),
        "Missing MIN_NOTIONAL/NOTIONAL.minNotional"
    );
    let bad = info(vec![lot("?")], "TRADING");
    assert!(matches!(symbol_rules(&bad, "BTCUSDT"), Err(RulesError::BadRule { .. })));
}

#[test]
fn jitter_is_deterministic_given_seed() {
    let mut p = HttpPolicy::default();
    p.jitter_seed = 123;
    p.jitter_pct = fx(0.50);
    let base = 1000;

    let a = jitter_add(&p, 1, 0, base);
    let b = jitter_add(&p, 1, 0, base);
    assert_eq!(a, b);

    let c = jitter_add(&p, 1, 1, base);
    assert_ne!(a, c);
    assert!(a >= 1000 && a <= 1500);
}

#[test]
fn pauses_double_up_to_the_limit() {
    let p = HttpPolicy::default();
    assert_eq!(backoff_for_attempt(&p, 0), 250);
    assert_eq!(backoff_for_attempt(&p, 1), 500);
    assert_eq!(backoff_for_attempt(&p, 9), 5_000);
    assert_eq!(splitmix64(0), 0xE220_A839_7B1D_CDAF);
    assert!(is_retryable_status(429) && is_retryable_status(503));
    assert!(!is_retryable_status(400));
}

#[test]
fn attempts_are_repeated_within_reason() {
    let mut p = HttpPolicy::default();
    p.jitter_pct = 0;
    let busy = Attempt::Reply { status: 429, retry_after_ms: Some(9_000), blank: false };
    assert_eq!(after_attempt(&p, 1, 0, busy, false), Next::Retry { pause_ms: 9_000 });
    assert_eq!(after_attempt(&p, 1, 3, busy, false), Next::Done);
    let fault = Attempt::Reply { status: 500, retry_after_ms: Some(9_000), blank: false };
    assert_eq!(after_attempt(&p, 1, 0, fault, false), Next::Retry { pause_ms: 250 });
    let blank = Attempt::Reply { status: 200, retry_after_ms: None, blank: true };
    assert_eq!(after_attempt(&p, 1, 0, blank, true), Next::Retry { pause_ms: 250 });
    assert_eq!(after_attempt(&p, 1, 3, blank, true), Next::EmptyBody);
    assert_eq!(after_attempt(&p, 1, 0, blank, false), Next::Done);
    let gone = Attempt::Failure { retryable: true };
    assert_eq!(after_attempt(&p, 1, 1, gone, false), Next::Retry { pause_ms: 500 });
    assert_eq!(after_attempt(&p, 1, 3, gone, false), Next::Fail);
    assert_eq!(after_attempt(&p, 1, 0, Attempt::Failure { retryable: false }, false), Next::Fail);
}

#[test]
fn the_operator_sets_the_policy() {
    let set = PolicySettings {
        timeout_secs: Some(0),
        max_retries: Some(7),
        backoff_ms: None,
        backoff_max_ms: Some(100),
        jitter_pct: Some(fx(-1.0)),
        jitter_seed: None,
    };
    let p = policy_with(&set, 42);
    assert_eq!(p.timeout_ms, 10_000);
    assert_eq!(p.max_retries, 7);
    assert_eq!(p.max_backoff_ms, 100);
    assert_eq!(p.jitter_pct, fx(0.2));
    assert_eq!(p.jitter_seed, 42);
    assert_eq!(parse_retry_after(" 3 "), Some(3_000));
    assert_eq!(parse_retry_after("Wed, 21 Oct 2015 07:28:00 GMT"), None);
    assert_eq!(parse_retry_after("99999999999999999999"), None);
}

#[test]
fn no_pause_is_cut_short() {
    let set = PolicySettings {
        timeout_secs: Some(u64::MAX),
        max_retries: None,
        backoff_ms: Some(u64::MAX),
        backoff_max_ms: Some(u64::MAX),
        jitter_pct: Some(fx(5_000.0)),
        jitter_seed: Some(1),
    };
    let mut p = policy_with(&set, 42);
    assert_eq!(p.timeout_ms, u64::MAX);
    assert_eq!(p.max_backoff_ms, u64::MAX);
    assert_eq!(p.jitter_pct, fx(5_000.0));
    assert_eq!(backoff_for_attempt(&p, 1), u64::MAX);
    // The jitter alone would pass the end of the clock.
    let most = jitter_add(&p, 1, 0, u64::MAX);
    assert_eq!(most, u64::MAX);
    let some = jitter_add(&p, 1, 0, 1);
    assert!(some > 1 && some <= 5_001);
    assert_eq!(some, 1 + splitmix64(1 ^ 1) % 5_001);
    p = HttpPolicy::default();
    p.jitter_pct = 0;
    let years = 3 * 31_536_000_000;
    let busy = Attempt::Reply { status: 429, retry_after_ms: Some(years), blank: false };
    assert_eq!(after_attempt(&p, 1, 0, busy, false), Next::Retry { pause_ms: years });
}

#[test]
fn each_attempt_draws_its_own_jitter() {
    let mut p = HttpPolicy::default();
    p.jitter_seed = 123;
    p.jitter_pct = fx(0.50);
    for attempt in 0..20 {
        let ms = jitter_add(&p, 1, attempt, 1_000);
        assert!((1_000..=1_500).contains(&ms));
        assert_eq!(ms, jitter_add(&p, 1, attempt, 1_000));
    }
    p.jitter_pct = 0;
    assert_eq!(jitter_add(&p, 1, 0, 1_000), 1_000);
    // Where the jitter is not cut off, no two attempts have the same one.
    p.jitter_pct = fx(1_000_000_000_000.0);
    let drawn: Vec<u64> = (0..20).map(|a| jitter_add(&p, 1, a, u64::MAX / 2)).collect();
    let below: Vec<&u64> = drawn.iter().filter(|d| **d < u64::MAX).collect();
    for (i, a) in below.iter().enumerate() {
        assert!(below[i + 1..].iter().all(|b| a != b));
    }
    assert!(below.len() > 2);
}

#[test]
fn fields_of_replies_are_read() {
    assert_eq!(reply_count(r#"{"serverTime":1700000000000}"#, "serverTime").unwrap(), 1_700_000_000_000);
    let e = reply_count(r#"{"serverTime":-1}"#, "serverTime").unwrap_err();
    assert_eq!(e.message(), "serverTime is missing");
    assert!(reply_flag(r#"{"enableWithdrawals":true}"#, "enableWithdrawals").unwrap());
    assert!(reply_flag("{}", "enableWithdrawals").is_err());
    assert_eq!(reply_number(r#"{"symbol":"X","price":"42.50"}"#, "price").unwrap(), fx(42.5));
    let e = reply_number(r#"{"price":"cheap"}"#, "price").unwrap_err();
    assert_eq!(e.message(), "Bad number for price: cheap");
    let e = reply_number(r#"{"price":42.5}"#, "price").unwrap_err();
    assert_eq!(e.message(), "price is missing");
    assert!(matches!(reply_number("no json", "price"), Err(ReplyError::NotJson { .. })));
    assert_eq!(number_in(Field::Text("7".to_string()), "price").unwrap(), fx(7.0));
    assert!(count_in(Field::Flag(true), "n").is_err());
    assert!(flag_in(Field::Flag(true), "n").unwrap());
    assert_eq!(text_in(Field::Other), None);
    assert_eq!(reply_text(r#"{"ip":"1.2.3.4"}"#, "ip").unwrap(), "1.2.3.4");
}
