use binance_survival_bot::candles::{
    cache_file, cache_is_fresh, candles_in_range, judge_cache, klines_url, limit_ok, parse_klines,
    parse_klines_body, CacheUse, Cell, Interval, KlineError,
};
use binance_survival_bot::features::{
    atr14_last, check_candles, closes, compute_features, donchian_high_low_prev, ema_last, rsi_last,
    sma_last, vol_closes, volumes, zscore_values, Candle, FeatureError, Measures,
};
use binance_survival_bot::fixed::LIMIT;
use binance_survival_bot::history::{
    days_ok, history_days, history_start, interval_ms, next_cursor, order_candles, page_url, range_ok,
};

fn fx(v: f64) -> i128 {
    (v * 1e12).round() as i128
}

fn to_f(v: i128) -> f64 {
    v as f64 / 1e12
}

fn candle(open_time: i64, high: f64, low: f64, close: f64) -> Candle {
    Candle {
        open_time,
        open: fx(close),
        high: fx(high),
        low: fx(low),
        close: fx(close),
        volume: fx(1.0),
    }
}

#[test]
fn parses_binance_klines_shape() {
    let text = |s: &str| Cell::Text(s.to_string());
    let body = Some(vec![
        Some(vec![
            Cell::Int(1700000000000i64),
            text("1.0"),
            text("2.0"),
            text("0.5"),
            text("1.5"),
            text("10.0"),
            Cell::Int(1700000001000i64),
        ]),
        Some(vec![
            Cell::Int(1700000001000i64),
            text("1.5"),
            text("2.5"),
            text("1.2"),
            text("2.0"),
            text("12.0"),
            Cell::Int(1700000002000i64),
        ]),
    ]);

    let candles = parse_klines_body(&body).unwrap();
    assert_eq!(candles.len(), 2);
    assert_eq!(candles[0].open_time, 1700000000000);
    assert!((to_f(candles[0].open) - 1.0).abs() < 1e-12);
    assert!((to_f(candles[0].high) - 2.0).abs() < 1e-12);
    assert!((to_f(candles[0].low) - 0.5).abs() < 1e-12);
    assert!((to_f(candles[0].close) - 1.5).abs() < 1e-12);
    assert!((to_f(candles[0].volume) - 10.0).abs() < 1e-12);
}

#[test]
fn a_reply_is_read_from_its_text() {
    let text = r#"[[1700000000000,"1.0","2.0","0.5","1.5","10.0",7],[1700000001000,"1.5","2.5","1.2","2.0","12.0",8]]"#;
    let candles = parse_klines(text).unwrap();
    assert_eq!(candles.len(), 2);
    assert_eq!(candles[1].open_time, 1700000001000);
    assert_eq!(candles[1].close, fx(2.0));
    assert_eq!(candles[1].volume, fx(12.0));
    assert!(parse_klines("[]").unwrap().is_empty());
}

#[test]
fn every_bad_reply_has_its_error() {
    assert!(matches!(parse_klines("not json"), Err(KlineError::NotJson { .. })));
    let says = |text: &str| parse_klines(text).unwrap_err().message();
    assert_eq!(says("{}"), "Klines response was not an array");
    assert_eq!(says("[1]"), "Kline row was not an array");
    assert_eq!(says("[[1,\"1\"]]"), "Kline row had too few columns");
    assert_eq!(says("[[\"t\",\"1\",\"1\",\"1\",\"1\",\"1\"]]"), "openTime was not an integer");
    assert_eq!(says("[[1.5,\"1\",\"1\",\"1\",\"1\",\"1\"]]"), "openTime was not an integer");
    assert_eq!(says("[[1,\"1\",2,\"1\",\"1\",\"1\"]]"), "high was not a string");
    assert_eq!(says("[[1,\"1\",\"1\",\"1\",\"1\",\"x\"]]"), "volume was not a number");
}

#[test]
fn cache_freshness_works() {
    assert!(cache_is_fresh(true, Some(0), 60_000));
    assert!(cache_is_fresh(true, Some(60_000), 60_000));
    assert!(!cache_is_fresh(true, Some(60_001), 60_000));
    assert!(!cache_is_fresh(false, None, 60_000));
    assert_eq!(cache_file("BTCUSDT", Interval::FiveMinutes), "BTCUSDT_5m.json");
    assert_eq!(judge_cache(true, true, true), CacheUse::Use);
    assert_eq!(judge_cache(false, true, true), CacheUse::Miss);
    assert_eq!(judge_cache(true, true, false), CacheUse::Quarantine);
}

#[test]
fn klines_are_asked_for() {
    assert_eq!(
        klines_url("https://x", "BTCUSDT", Interval::OneMinute, 200),
        "https://x/api/v3/klines?symbol=BTCUSDT&interval=1m&limit=200"
    );
    assert!(limit_ok(1) && limit_ok(1000));
    assert!(!limit_ok(0) && !limit_ok(1001));
    assert_eq!(Interval::OneHour.as_str(), "1h");
}

#[test]
fn ema_constant_series_is_constant() {
    let v = vec![fx(10.0); 60];
    let e = to_f(ema_last(&v, 20).unwrap());
    assert!((e - 10.0).abs() < 1e-9);
}

#[test]
fn ema_weighs_the_last_value() {
    // The first average is 1; then 2/3 of the way to 4.
    let e = ema_last(&vec![fx(1.0), fx(1.0), fx(4.0)], 2).unwrap();
    assert_eq!(e, fx(3.0));
}

#[test]
fn atr_simple_case() {
    // Build candles where TR is constant = 2.
    let mut c = Vec::new();
    let mut close = 100.0;
    for i in 0..30 {
        let open = close;
        let high = open + 1.0;
        let low = open - 1.0;
        close = open; // no gaps
        c.push(Candle {
            open_time: 1_700_000_000_000 + i,
            open: fx(open),
            high: fx(high),
            low: fx(low),
            close: fx(close),
            volume: fx(1.0),
        });
    }
    let atr = to_f(atr14_last(&c, 14).unwrap());
    assert!((atr - 2.0).abs() < 1e-9);
}

#[test]
fn donchian_prev_excludes_last() {
    let mut c = Vec::new();
    for i in 0..25 {
        c.push(Candle {
            open_time: i,
            open: fx(1.0),
            high: fx(i as f64),
            low: fx(0.0),
            close: fx(1.0),
            volume: fx(1.0),
        });
    }
    // last candle has highest high, but should be excluded
    c[24].high = fx(999.0);
    let (h, _l) = donchian_high_low_prev(&c, 20).unwrap();
    assert!(h < fx(999.0));
    assert_eq!(h, fx(23.0));
}

#[test]
fn averages_and_strength_are_exact() {
    assert_eq!(sma_last(&vec![fx(9.0), fx(1.0), fx(2.0)], 2).unwrap(), fx(1.5));
    // Rises of 3 against falls of 1.
    let v = vec![fx(10.0), fx(13.0), fx(12.0)];
    assert_eq!(rsi_last(&v, 2).unwrap(), fx(75.0));
    assert_eq!(rsi_last(&vec![fx(1.0), fx(2.0), fx(3.0)], 2).unwrap(), fx(100.0));
    let c = vec![candle(0, 2.0, 1.0, 1.5)];
    assert_eq!(closes(&c), vec![fx(1.5)]);
    assert_eq!(volumes(&c), vec![fx(1.0)]);
}

#[test]
fn indicators_say_what_they_lack() {
    assert_eq!(ema_last(&vec![], 0).unwrap_err().message(), "EMA period must be > 0");
    assert_eq!(
        ema_last(&vec![1, 2], 3).unwrap_err().message(),
        "Not enough data for EMA3: have 2, need 3"
    );
    let c = vec![candle(0, 2.0, 1.0, 1.5)];
    assert_eq!(
        atr14_last(&c, 14).unwrap_err().message(),
        "Not enough candles for ATR14: have 1, need 15"
    );
    assert_eq!(
        donchian_high_low_prev(&c, 0).unwrap_err().message(),
        "Donchian lookback must be > 0"
    );
    assert_eq!(
        rsi_last(&vec![1, 2], 14).unwrap_err().message(),
        "Not enough closes for RSI14: have 2, need 15"
    );
    assert_eq!(sma_last(&vec![1], 0).unwrap_err().message(), "SMA period must be > 0");
}

#[test]
fn features_come_from_three_intervals() {
    let series = |n: i64, step: i64| -> Vec<Candle> {
        (0..n).map(|i| candle(i * step, 101.0, 99.0, 100.0)).collect()
    };
    let m = Measures { rv_short: fx(0.01), rv_long: fx(0.02), volume_z: fx(0.5), close_std20: fx(1.0) };
    let f = compute_features(&series(60, 60_000), &series(120, 300_000), &series(200, 3_600_000), &m)
        .unwrap();
    assert_eq!(f.ema200_1h, fx(100.0));
    assert_eq!(f.atr14_5m, fx(2.0));
    assert_eq!(f.atr_ratio_5m, fx(1.0));
    assert_eq!(f.bb_upper_5m, fx(102.0));
    assert_eq!(f.bb_lower_5m, fx(98.0));
    assert_eq!(f.bb_width_5m, fx(0.04));
    assert_eq!(f.velocity_5m, 0);
    assert_eq!(f.rv_long, fx(0.02));
    assert_eq!(f.donchian_high20_5m, fx(101.0));
    let e = compute_features(&series(60, 1), &series(120, 1), &series(199, 1), &m).unwrap_err();
    assert_eq!(e.message(), "Not enough data for EMA200: have 199, need 200");
    let e = compute_features(&series(60, 1), &vec![], &series(199, 1), &m).unwrap_err();
    assert_eq!(e, FeatureError::No5mCandles);
    assert_eq!(
        compute_features(&vec![], &series(120, 1), &vec![], &m).unwrap_err().message(),
        "No 1h candles"
    );
}

#[test]
fn candles_out_of_range_are_found() {
    let mut c = vec![candle(0, 2.0, 1.0, 1.5)];
    assert!(candles_in_range(&c));
    c[0].high = i128::MAX;
    assert!(!candles_in_range(&c));
}

#[test]
fn the_history_is_fetched_page_by_page() {
    assert_eq!(interval_ms(Interval::FiveMinutes), 300_000);
    assert!(range_ok(0, 1) && !range_ok(1, 1));
    assert_eq!(
        page_url("https://x", "BTCUSDT", Interval::OneHour, 5, 9),
        "https://x/api/v3/klines?symbol=BTCUSDT&interval=1h&startTime=5&endTime=9&limit=1000"
    );
    assert_eq!(next_cursor(0, Some(600_000), Interval::FiveMinutes, 10_000_000), Some(900_000));
    assert_eq!(next_cursor(0, None, Interval::FiveMinutes, 10_000_000), None);
    // No progress is made.
    assert_eq!(next_cursor(900_000, Some(0), Interval::FiveMinutes, 10_000_000), None);
    assert_eq!(history_days(None), 90);
    assert_eq!(history_days(Some(0)), 1);
    assert_eq!(history_days(Some(10_000)), 720);
    assert!(days_ok(720) && !days_ok(721) && !days_ok(0));
    assert_eq!(history_start(86_400_000, 1), 0);
}

#[test]
fn the_history_is_put_in_order() {
    let c = |t: i64, close: f64| candle(t, 2.0, 1.0, close);
    let out = order_candles(&vec![c(3, 1.3), c(1, 1.1), c(3, 1.9), c(2, 1.2)]);
    let times: Vec<i64> = out.iter().map(|x| x.open_time).collect();
    assert_eq!(times, vec![1, 2, 3]);
    assert_eq!(out[2].close, fx(1.3));
}

#[test]
fn features_need_101_positive_closes() {
    let series = |n: i64| -> Vec<Candle> {
        (0..n).map(|i| candle(i * 300_000, 101.0, 99.0, 100.0)).collect()
    };
    let m = Measures { rv_short: fx(0.01), rv_long: fx(0.02), volume_z: fx(0.5), close_std20: fx(1.0) };
    let told = |c5: &Vec<Candle>| -> String {
        let e = compute_features(&series(60), c5, &series(200), &m).unwrap_err();
        assert_eq!(check_candles(&series(60), c5, &series(200)), Err(e));
        e.message()
    };
    assert_eq!(told(&series(100)), "Not enough closes for vol100: have 100, need 101");
    assert_eq!(told(&series(51)), "Not enough closes for vol100: have 51, need 101");
    assert!(compute_features(&series(60), &series(101), &series(200), &m).is_ok());
    assert_eq!(check_candles(&series(60), &series(101), &series(200)), Ok(()));
    let mut c = series(120);
    c[19].close = 0;
    assert_eq!(told(&c), "Bad close value for log return");
    c[19].close = fx(100.0);
    c[18].close = fx(-1.0);
    assert!(compute_features(&series(60), &c, &series(200), &m).is_ok());
    let mut c = series(60);
    c[59].close = 0;
    assert_eq!(told(&c), "Bad close value for log return");
    assert_eq!(told(&series(10)), "Not enough data for EMA20: have 10, need 20");
}

#[test]
fn the_measures_get_their_windows() {
    let v: Vec<i128> = (1..=5).collect();
    assert_eq!(vol_closes(&v, 2).unwrap(), vec![3, 4, 5]);
    assert_eq!(vol_closes(&v, 0).unwrap_err().message(), "Vol lookback must be > 0");
    assert_eq!(
        vol_closes(&v, 5).unwrap_err().message(),
        "Not enough closes for vol5: have 5, need 6"
    );
    assert_eq!(vol_closes(&vec![0, 1, 2], 2).unwrap_err(), FeatureError::BadClose);
    assert_eq!(zscore_values(&v, 3).unwrap(), vec![2, 3, 4, 5]);
    assert_eq!(zscore_values(&v, 0).unwrap_err().message(), "Z-score lookback must be > 0");
    assert_eq!(
        zscore_values(&v, 9).unwrap_err().message(),
        "Not enough values for z-score9: have 5, need 10"
    );
}

#[test]
fn a_huge_volume_does_not_spoil_the_page() {
    let page = r#"[[0,"1","2","0.5","1.5","99999999999999999999"]]"#;
    let c = parse_klines(page).unwrap();
    assert_eq!(c[0].volume, LIMIT);
    assert_eq!(c[0].close, fx(1.5));
}
