use binance_survival_bot::backtest::{simulate, Bar, BacktestConfig, CurvePoint, Sim};
use binance_survival_bot::cli::{
    arg_value, days_error, has_flag, range_label, read_backtest_args, read_fetch_args,
    read_windows, report_name, sample_warning, tell_metrics, tell_tally, walk_intro, walk_line,
    windows_error, TALLY_HEAD, WALK_HEAD,
};
use binance_survival_bot::diagnostics::{
    count_table, exit_reason_table, outcome_table, threshold_table, Table,
};
use binance_survival_bot::features::{Candle, Features, Measures};
use binance_survival_bot::metrics::{
    compute_metrics, compute_regime_stats, compute_score_buckets, count_bars, feature_value,
    group_names, keep_entered_from, keep_test_trades, run_backtest, score_bucket, summarize,
    BacktestReport, Feature, Group, Key, RegimeBars,
};
use binance_survival_bot::regime::{Regime, RegimeResult, RegimeThresholds};
use binance_survival_bot::replay::History;
use binance_survival_bot::report::{
    format_pf, format_usdt, generate_html, metric_card, render_equity_svg,
    render_score_buckets_svg,
};
use binance_survival_bot::report_json::report_data;
use binance_survival_bot::signals::SignalSettings;
use binance_survival_bot::telemetry::{FeatureSnapshot, TradeRecord};
use binance_survival_bot::tick::Reading;
use binance_survival_bot::walk::{backtest_history, test_window, walk_parts};
use binance_survival_bot::windows::{
    bar_windows, enough_to_simulate, first_from, padded_start, select_range, walk_windows,
    window_label, WalkError,
};

fn fx(v: f64) -> i128 {
    (v * 1e12).round() as i128
}

fn features() -> Features {
    Features {
        ema20_1h: fx(102.0),
        ema50_1h: fx(100.0),
        ema200_1h: 0,
        ema20_5m: 0,
        ema50_5m: 0,
        atr14_5m: fx(10.0),
        atr14_1m: fx(10.0),
        atr_ratio_5m: fx(1.0),
        bb_mid20_5m: 0,
        bb_upper_5m: 0,
        bb_lower_5m: 0,
        bb_width_5m: 0,
        rsi14_5m: fx(50.0),
        rsi14_1m: fx(50.0),
        donchian_high20_5m: fx(200.0),
        donchian_low20_5m: 0,
        rv_short: 0,
        rv_long: 0,
        volume_z: fx(1.0),
        ema20_1m: 0,
        velocity_1m: 0,
        velocity_5m: 0,
        last_close_1m: fx(250.0),
        last_close_5m: fx(250.0),
        last_close_1h: 0,
    }
}

fn candle(t: i64, high: f64, low: f64, close: f64) -> Candle {
    Candle { open_time: t, open: fx(close), high: fx(high), low: fx(low), close: fx(close), volume: fx(1.0) }
}

fn bar(t: i64, high: f64, low: f64, close: f64, regime: Regime) -> Bar {
    let f = features();
    let r = RegimeResult {
        regime,
        reason: String::new(),
        trend_strength: fx(1.0),
        vol_ratio: fx(1.2),
        vol_squeeze: false,
        htf_bullish: true,
        bearish_bias: false,
    };
    Bar {
        candle: candle(t, high, low, close),
        features: f,
        reading: Reading {
            regime,
            vol_ratio: r.vol_ratio,
            vol_squeeze: false,
            htf_bullish: true,
            bearish_bias: false,
        },
        snapshot: FeatureSnapshot::from_features_and_regime(&f, &r),
    }
}

#[test]
fn a_trade_is_stopped_out() {
    let cfg = BacktestConfig::default();
    let set = SignalSettings::default();
    let bars = vec![
        bar(300_000, 261.0, 259.0, 260.0, Regime::Trending),
        bar(600_000, 261.0, 1.0, 100.0, Regime::Illiquid),
        bar(900_000, 101.0, 99.0, 100.0, Regime::Illiquid),
    ];
    let s = simulate(&bars, &bars[2].candle, &cfg, &set);
    assert_eq!(s.trades.len(), 1);
    let t = &s.trades[0];
    assert_eq!(t.entry_price, fx(260.13));
    assert_eq!(t.exit_reason.as_deref(), Some("stop_hit"));
    assert_eq!(t.exit_price, Some(t.stop_price));
    assert_eq!(t.entry_time_ms, 300_000);
    assert_eq!(t.exit_time_ms, Some(600_000));
    assert!(s.open.is_none());
    assert_eq!(s.equity_curve.len(), 3);
    assert_eq!(s.equity_curve[0].value, fx(10_000.0));
    assert!(s.equity < fx(10_000.0));
    assert!(s.drawdown_curve[1].value > 0);
    // No more than a fifth of the equity.
    assert!(t.position_value_usdt <= fx(2_001.1));
}

#[test]
fn a_trade_takes_its_profit_or_ends_with_the_data() {
    let cfg = BacktestConfig::default();
    let set = SignalSettings::default();
    let first = bar(300_000, 261.0, 259.0, 260.0, Regime::Trending);
    let mut sim = Sim::new(&cfg);
    sim.step(&first, &cfg, &set);
    let tp = sim.open.as_ref().unwrap().tp_price.unwrap();
    let stop = sim.open.as_ref().unwrap().stop_price;
    assert_eq!(tp, fx(260.0) + 3 * (fx(260.0) - stop));
    let high = bar(600_000, tp as f64 / 1e12 + 1.0, 259.0, 260.0, Regime::Illiquid);
    sim.step(&high, &cfg, &set);
    assert_eq!(sim.trades[0].exit_reason.as_deref(), Some("tp_hit"));
    assert_eq!(sim.trades[0].exit_price, Some(tp));
    assert!(sim.equity > fx(10_000.0));

    let s = simulate(&vec![first], &first.candle, &cfg, &set);
    assert_eq!(s.trades[0].exit_reason.as_deref(), Some("end_of_data"));
    assert_eq!(s.trades[0].exit_price, Some(fx(260.0)));
}

#[test]
fn no_bar_looks_ahead() {
    let cfg = BacktestConfig::default();
    let set = SignalSettings::default();
    let bars = vec![
        bar(300_000, 261.0, 259.0, 260.0, Regime::Trending),
        bar(600_000, 261.0, 259.0, 260.0, Regime::Illiquid),
        bar(900_000, 261.0, 1.0, 100.0, Regime::Illiquid),
    ];
    let mut a = Sim::new(&cfg);
    let mut b = Sim::new(&cfg);
    for x in &bars[..2] {
        a.step(x, &cfg, &set);
        b.step(x, &cfg, &set);
    }
    b.step(&bars[2], &cfg, &set);
    assert_eq!(a.equity_curve[..], b.equity_curve[..2]);
    assert!(a.trades.is_empty());
    assert_eq!(b.trades.len(), 1);
}

fn snapshot() -> FeatureSnapshot {
    bar(0, 1.0, 1.0, 1.0, Regime::Trending).snapshot
}

fn trade(strategy: &str, regime: Regime, score: f64, net: f64, at: u64, reason: &str) -> TradeRecord {
    // Worth 100 USDT.
    let mut t = TradeRecord::open(
        "BTCUSDT", regime, strategy, fx(score), at, fx(100.0), fx(1.0), fx(90.0), None, 0, snapshot(),
    );
    t.close(at + 120_000, fx(100.0 + net), reason, 0, Some(fx(3.0)), Some(fx(1.0)));
    t
}

fn trades() -> Vec<TradeRecord> {
    vec![
        trade("trend_breakout", Regime::Trending, 0.3, 4.0, 1_000, "tp_hit"),
        trade("momentum", Regime::Ranging, 0.9, -1.0, 2_000, "stop_hit"),
        trade("trend_breakout", Regime::Trending, 0.35, -2.0, 3_000, "stop_hit"),
    ]
}

#[test]
fn metrics_are_exact() {
    let curve = vec![
        CurvePoint { time_ms: 0, value: fx(1.0) },
        CurvePoint { time_ms: 1, value: fx(2.5) },
    ];
    let m = compute_metrics(fx(1000.0), fx(1001.0), &trades(), &curve, fx(1.0), fx(2.0));
    assert_eq!(m.total_return_pct, fx(0.1));
    assert_eq!(m.max_drawdown_pct, fx(2.5));
    assert_eq!(m.profit_factor, Some(fx(4.0 / 3.0)));
    assert_eq!(m.trade_count, 3);
    assert_eq!(m.winning_trades, 1);
    assert_eq!(m.losing_trades, 2);
    assert_eq!(m.avg_winner_pct, fx(4.0));
    assert_eq!(m.avg_loser_pct, fx(-1.5));
    assert_eq!(m.avg_trade_duration_ms, 120_000);
    assert_eq!(m.win_rate, fx(1.0 / 3.0));
    let none = compute_metrics(fx(1000.0), fx(1000.0), &vec![], &vec![], 0, 0);
    assert_eq!(none.profit_factor, Some(0));
    let won = vec![trade("a", Regime::Trending, 0.3, 4.0, 0, "x")];
    assert_eq!(compute_metrics(fx(1.0), fx(1.0), &won, &vec![], 0, 0).profit_factor, None);
}

#[test]
fn trades_are_grouped() {
    let t = trades();
    let b = compute_score_buckets(&t);
    assert_eq!(b.len(), 5);
    assert_eq!(b[1].summary.count, 2);
    assert_eq!(b[1].summary.expectancy_pct, fx(1.0));
    assert_eq!(b[4].summary.count, 1);
    assert_eq!(b[0].summary.profit_factor, Some(0));
    assert_eq!(b[1].label, "0.2–0.4");
    assert_eq!(score_bucket(fx(1.0)), 4);
    let r = compute_regime_stats(&t);
    assert_eq!(r.len(), 2);
    assert_eq!(r[0].regime, Regime::Ranging);
    assert_eq!(r[1].summary.avg_return_pct, fx(1.0));
    let all = Group::all();
    assert_eq!(group_names(&t, &all, Key::Strategy), vec!["momentum", "trend_breakout"]);
    assert_eq!(group_names(&t, &all, Key::ExitReason), vec!["stop_hit", "tp_hit"]);
    assert_eq!(summarize(&t, &all).avg_mfe_pct, fx(3.0));
    assert_eq!(summarize(&t, &all).avg_minutes, fx(2.0));
    assert_eq!(feature_value(&snapshot(), Feature::HtfSpreadPct), fx(2.0));
    let kept = keep_entered_from(t, 2_000);
    assert_eq!(kept.len(), 2);
    assert_eq!(kept[0].strategy, "momentum");
}

#[test]
fn a_backtest_reports_itself() {
    let bars = vec![
        bar(300_000, 261.0, 259.0, 260.0, Regime::Trending),
        bar(600_000, 261.0, 1.0, 100.0, Regime::Illiquid),
        bar(900_000, 101.0, 99.0, 100.0, Regime::Illiquid),
    ];
    let cfg = BacktestConfig::default();
    let rep = run_backtest(&bars, &bars[2].candle, &cfg, &SignalSettings::default());
    assert_eq!(rep.metrics.trade_count, 1);
    assert_eq!(rep.regime_bar_counts.len(), 2);
    assert_eq!(rep.regime_bar_counts[0], RegimeBars { regime: Regime::Illiquid, bars: 2 });
    assert_eq!(count_bars(&bars, Regime::Trending), 1);
    let html = generate_html(&rep, fx(1.234));
    assert!(html.starts_with("<!DOCTYPE html>\n<html lang=\"en\">"));
    assert!(html.ends_with("}</script>\n</body></html>"));
    assert!(html.contains("<div class=\"metric-label\">Sharpe Ratio</div><div class=\"metric-value pos\">1.23</div>"));
    assert!(html.contains("<td>stop_hit</td></tr>"));
    assert!(html.contains("<tr><td>Trending</td><td>1</td>"));
    assert!(html.contains("body{font-family:monospace"));
    let later = keep_test_trades(rep, 300_001);
    assert_eq!(later.metrics.trade_count, 0);
    assert_eq!(later.equity_curve.len(), 3);
    assert!(generate_html(&later, 0).contains("No trades"));
}

#[test]
fn the_pieces_of_a_page() {
    assert_eq!(format_pf(None), "∞");
    assert_eq!(format_pf(Some(fx(1.5))), "1.50");
    assert_eq!(format_usdt(fx(-2.5)), "-$2.50");
    assert_eq!(format_usdt(fx(2.5)), "$2.50");
    assert_eq!(
        metric_card("L", "V", "pos"),
        "<div class=\"metric\"><div class=\"metric-label\">L</div><div class=\"metric-value pos\">V</div></div>"
    );
    let empty = render_equity_svg(&vec![], 780, 200, "#fff");
    assert_eq!(
        empty,
        "<div class=\"chart-wrap\"><svg width=\"780\" height=\"200\"><text x=\"10\" y=\"20\">No data</text></svg></div>"
    );
    let points = vec![
        CurvePoint { time_ms: 0, value: fx(1.0) },
        CurvePoint { time_ms: 10, value: fx(3.0) },
        CurvePoint { time_ms: 20, value: fx(2.0) },
    ];
    let svg = render_equity_svg(&points, 780, 200, "#58a6ff");
    assert!(svg.contains("<path d=\"M 60.0 172.0 L 410.0 16.0 L 760.0 94.0\" fill=\"none\" stroke=\"#58a6ff\" stroke-width=\"1.5\"/>"), "{svg}");
    assert!(svg.contains("<text x=\"56\" y=\"176.0\" text-anchor=\"end\">1.00</text>"), "{svg}");
    assert!(svg.contains("<line x1=\"60\" y1=\"16.0\" x2=\"760\" y2=\"16.0\" stroke=\"#30363d\" stroke-width=\"1\"/>"));
    let svg = render_score_buckets_svg(&compute_score_buckets(&trades()), 780, 200);
    // Half of the trades of the second bucket won.
    assert!(svg.contains("<rect x=\"202\" y=\"94\" width=\"136\" height=\"78\" fill=\"#3fb950\" opacity=\"0.8\"/>"), "{svg}");
    assert!(svg.contains("<text x=\"272\" y=\"186\" text-anchor=\"middle\">0.2–0.4</text>"));
    assert!(svg.contains("<text x=\"272\" y=\"168\" text-anchor=\"middle\" fill=\"#c9d1d9\">50%</text>"));
}

#[test]
fn windows_of_data() {
    let c: Vec<Candle> = (0..400).map(|i| candle(i * 300_000, 1.0, 1.0, 1.0)).collect();
    assert_eq!(first_from(&c, 600_000), 2);
    assert_eq!(first_from(&c, i64::MAX), 400);
    assert_eq!(padded_start(&c, 300 * 300_000), 90);
    assert!(bar_windows(0, &c, &c, &c).is_none());
    let w = bar_windows(399, &c, &c, &c).unwrap();
    assert_eq!(w.m5.to, 400);
    assert!(enough_to_simulate(120, 120, 60) && !enough_to_simulate(120, 119, 60));
    let s = select_range(400, 0, fx(0.75), 120).unwrap();
    assert_eq!((s.from, s.to), (0, 300));
    let e = select_range(400, fx(0.5), fx(0.5), 120).unwrap_err();
    assert_eq!(e.message(false), "end_frac (0.5) must be > start_frac (0.5)");
    let e = select_range(400, 0, fx(0.1), 120).unwrap_err();
    assert_eq!(
        e.message(false),
        "Selected range too small (40 candles). Widen start/end fractions."
    );
    assert_eq!(
        e.message(true),
        "Selected range too small (40 candles) for walk-forward. Widen start/end fractions."
    );
}

#[test]
fn bars_are_made_of_the_history() {
    let series = |n: i64, step: i64| -> Vec<Candle> {
        (0..n).map(|i| candle(i * step, 101.0, 99.0, 100.0)).collect()
    };
    let h = History { m1: series(3_000, 60_000), m5: series(400, 300_000), h1: series(400, 300_000) };
    assert!(h.in_range());
    let m = Measures { rv_short: fx(0.01), rv_long: fx(0.01), volume_z: 0, close_std20: fx(1.0) };
    let t = RegimeThresholds::default();
    assert!(h.measured(100).is_none());
    assert_eq!(h.measured(299).unwrap().len(), 200);
    // The one-hour average needs 200 candles.
    assert!(h.bar(150, &m, &t).is_none());
    let b = h.bar(299, &m, &t).unwrap();
    assert_eq!(b.candle, h.m5[299]);
    assert_eq!(b.features.atr14_5m, fx(2.0));
    assert_eq!(b.reading.regime, Regime::Ranging);
    assert_eq!(b.snapshot.bb_width_5m, fx(0.04));
    assert!(b.in_range());
    let half = h.cut(fx(0.5), fx(1.0), 120).unwrap();
    assert_eq!(half.m5.len(), 200);
    assert_eq!(half.m5[0].open_time, 200 * 300_000);
    assert_eq!(half.h1.len(), 400);
    assert_eq!(half.m1[0].open_time, (1_000 - 210) * 60_000);
    assert!(h.cut(fx(0.5), fx(0.4), 120).is_err());
    let w = h.window(&walk_windows(400, 2, fx(0.2)).unwrap()[1]);
    assert_eq!(w.m5.len(), 200);
    assert_eq!(w.h1.len(), 200);
    assert_eq!(w.m1[0].open_time, 1_000 * 60_000);
}

#[test]
fn a_walk_tiles_the_data() {
    let w = walk_windows(500, 4, fx(0.2)).unwrap();
    assert_eq!(w.len(), 4);
    assert_eq!((w[0].start, w[0].test_start, w[0].end), (0, 100, 125));
    assert_eq!(w[3].end, 500);
    assert_eq!(walk_windows(500, 0, fx(0.2)).unwrap_err(), WalkError::NoWindows);
    assert_eq!(walk_windows(200, 1, fx(0.2)).unwrap_err(), WalkError::TooFewCandles);
    let e = walk_windows(500, 5, fx(0.2)).unwrap_err();
    assert_eq!(e.message(), "Windows too small (100). Reduce n_windows.");
    assert_eq!(window_label(2, 7), "window_2_test_from_7");
}

fn args(list: &[&str]) -> Vec<String> {
    list.iter().map(|s| s.to_string()).collect()
}

#[test]
fn the_command_line_is_read() {
    let a = args(&["bot", "--backtest", "--symbol=ETHUSDT", "--symbol=X", "--walk-forward=5"]);
    assert_eq!(arg_value(&a, "--symbol").unwrap(), "ETHUSDT");
    assert!(arg_value(&a, "--out").is_none());
    assert!(has_flag(&a, "--backtest") && !has_flag(&a, "--symbol"));
    let b = read_backtest_args(&a);
    assert_eq!(b.data_dir, "data");
    assert_eq!(b.out, "backtest_report.html");
    assert!(!b.diagnose);
    assert_eq!(read_windows(&b.walk_forward.unwrap()), Some(5));
    assert_eq!(read_windows("+5"), Some(5));
    assert_eq!(read_windows("-5"), None);
    assert_eq!(read_windows(""), None);
    assert_eq!(windows_error("x"), "--walk-forward expects an integer window count, got 'x'");
    let f = read_fetch_args(&args(&["--days=30"])).unwrap();
    assert_eq!(f.days, 30);
    assert_eq!(f.out_dir, "backtest_data");
    assert_eq!(f.base_url, "https://api.binance.com");
    assert_eq!(read_fetch_args(&args(&["--days=abc"])).unwrap().days, 90);
    let bad = read_fetch_args(&args(&["--days=-3"])).unwrap_err();
    assert_eq!(days_error(bad), "--days must be between 1 and 720, got -3");
    assert_eq!(range_label(Some(fx(0.25)), None).unwrap(), "0.25-1.00");
    assert_eq!(range_label(None, Some(fx(0.5))).unwrap(), "0.00-0.50");
    assert_eq!(range_label(Some(0), Some(fx(0.5))).unwrap(), "0.00-0.50");
    assert!(range_label(None, None).is_none());
    assert_eq!(report_name("w"), "backtest_w.html");
}

#[test]
fn the_figures_are_told() {
    let m = compute_metrics(fx(1000.0), fx(1001.0), &trades(), &vec![], fx(1.0), fx(2.0));
    let told = tell_metrics("BTCUSDT", &m, fx(0.5));
    assert!(told.starts_with("Backtest: BTCUSDT\n  Trades:          3\n  Win rate:        33.3%\n"));
    assert!(told.contains("  Total return:    +0.10%\n"));
    assert!(told.ends_with("  Total slippage:  $2.00"));
    assert_eq!(
        WALK_HEAD,
        format!(
            "{:<32} {:>7} {:>9} {:>10} {:>8} {:>8} {:>10}",
            "window", "trades", "win_rate", "return_%", "sharpe", "pf", "max_dd_%"
        )
    );
    assert_eq!(
        walk_line("w", &m, fx(0.5)),
        format!(
            "{:<32} {:>7} {:>8.1}% {:>9.2}% {:>8.2} {:>8} {:>9.2}%",
            "w", 3, 100.0 / 3.0, 0.1, 0.5, "1.33", 0.0
        )
    );
    assert_eq!(
        walk_intro("B", 4, fx(0.3)),
        "Walk-forward validation: B, 4 windows, 30% out-of-sample per window\n"
    );
    assert!(sample_warning(30, "data").is_none());
    assert!(sample_warning(29, "data").unwrap().contains("the live pipeline's own cache"));
    assert!(sample_warning(29, "x").unwrap().contains("in this sample from x/."));
    let rows = vec![
        RegimeBars { regime: Regime::Ranging, bars: 3 },
        RegimeBars { regime: Regime::Trending, bars: 1 },
    ];
    let line = |r: &str, n: usize, p: f64| format!("\n{:<12} {:>8} {:>7.1}%", r, n, p);
    assert_eq!(
        tell_tally(&rows),
        format!("{TALLY_HEAD}{}{}", line("Ranging", 3, 75.0), line("Trending", 1, 25.0))
    );
    assert!(TALLY_HEAD.ends_with(&format!("\n{:<12} {:>8} {:>8}", "regime", "bars", "pct")));
}

#[test]
fn the_trades_are_taken_apart() {
    let t = trades();
    let cells = |n: usize, mfe: f64, mae: f64, dur: f64, ret: f64| {
        format!(" {:>6} {:>10.2} {:>10.2} {:>11.1} {:>10.2}", n, mfe, mae, dur, ret)
    };
    let head = format!(
        " {:>6} {:>10} {:>10} {:>11} {:>10}",
        "n", "avg_mfe%", "avg_mae%", "avg_dur_min", "avg_ret%"
    );
    let reasons = exit_reason_table(&t, Some("trend_breakout"));
    assert_eq!(
        reasons,
        format!(
            "\n=== By exit reason, trend_breakout only (n=2) ===\n{:<45}{head}\n{:<45}{}\n{:<45}{}",
            "exit_reason",
            "stop_hit",
            cells(1, 3.0, 1.0, 2.0, -2.0),
            "tp_hit",
            cells(1, 3.0, 1.0, 2.0, 4.0)
        )
    );
    assert!(exit_reason_table(&t, None).starts_with("\n=== By exit reason ===\n"));
    let outcomes = outcome_table(&t);
    assert_eq!(
        outcomes,
        format!(
            "\n=== MFE/MAE diagnostic (% of position value; n=3) ===\n{:<10}{head}\n{:<10}{}\n{:<10}{}\n\n=== By strategy x outcome ===\n{:<20} {:<6}{head}\n{:<20} {:<6}{}\n{:<20} {:<6}{}\n{:<20} {:<6}{}",
            "outcome",
            "winners",
            cells(1, 3.0, 1.0, 2.0, 4.0),
            "losers",
            cells(2, 3.0, 1.0, 2.0, -1.5),
            "strategy",
            "result",
            "momentum",
            "loss",
            cells(1, 3.0, 1.0, 2.0, -1.0),
            "trend_breakout",
            "loss",
            cells(1, 3.0, 1.0, 2.0, -2.0),
            "trend_breakout",
            "win",
            cells(1, 3.0, 1.0, 2.0, 4.0)
        )
    );
    let counts = count_table(&t);
    assert_eq!(
        counts,
        format!(
            "\n=== Trade counts by regime x strategy (n=3) ===\n{:<12} {:<20} {:>6} {:>10}\n{:<12} {:<20} {:>6} {:>9.1}%\n{:<12} {:<20} {:>6} {:>9.1}%",
            "regime", "strategy", "n", "win_rate",
            "Ranging", "momentum", 1, 0.0,
            "Trending", "trend_breakout", 2, 50.0
        )
    );
}

#[test]
fn thresholds_split_the_trades() {
    let s = threshold_table(&trades(), Table::BreakoutVolumeZ);
    let row = |l: &str, n: usize, w: f64, r: f64| format!("\n{:<16} {:>6} {:>9.1}% {:>10.2}", l, n, w, r);
    let head = format!("{:<16} {:>6} {:>10} {:>10}", "volume_z", "n", "win_rate", "avg_ret%");
    let expected = format!(
        "\n=== volume_z at entry, trend_breakout only (n=2) ===\n{head}{}{}{}{}{}{}\n\n--- simple split at 0.0 ---\n{head}{}{}",
        row("< -0.5", 0, 0.0, 0.0),
        row("-0.5..0", 0, 0.0, 0.0),
        row("0..0.5", 0, 0.0, 0.0),
        row("0.5..1.0", 0, 0.0, 0.0),
        row("1.0..2.0", 2, 50.0, 1.0),
        row(">= 2.0", 0, 0.0, 0.0),
        row("<= 0.0", 0, 0.0, 0.0),
        row("> 0.0", 2, 50.0, 1.0),
    );
    assert_eq!(s, expected);
    assert_eq!(Table::ReversionVelocity5m.label(), "velocity_5m");
    assert_eq!(Table::ReversionVelocity5m.strategy(), "mean_reversion");
}

#[test]
fn the_smallest_profit_wins() {
    let mut t = trade("a", Regime::Trending, 0.3, 4.0, 0, "x");
    t.net_pnl_usdt = Some(1);
    let all = summarize(&vec![t], &Group::all());
    assert_eq!((all.count, all.wins), (1, 1));
    assert_eq!(all.win_rate, fx(1.0));
    assert_eq!(all.avg_return_pct, 0);
    assert_eq!(all.profit_factor, None);
    let mut t = trade("a", Regime::Trending, 0.3, 4.0, 0, "x");
    t.net_pnl_usdt = Some(0);
    assert_eq!(summarize(&vec![t], &Group::all()).wins, 0);
}

#[test]
fn a_simulated_range_exit_earns_its_costs_exactly() {
    let cfg = BacktestConfig::default();
    let set = SignalSettings::default();
    let mut open = bar(300_000, 261.0, 259.0, 260.0, Regime::Trending);
    open.features.atr14_5m = fx(20.0);
    let mut sim = Sim::new(&cfg);
    sim.step(&open, &cfg, &set);
    let entry = sim.open.as_ref().unwrap().entry_price;
    // Both ways cost 2 * 0.1% and 2 * 0.05%.
    assert_eq!(entry, fx(260.13));
    let leaves_at = |close: i128| -> bool {
        let mut next = bar(600_000, 261.0, 259.0, 260.0, Regime::Ranging);
        next.candle.close = close;
        let mut s = Sim::new(&cfg);
        s.step(&open, &cfg, &set);
        s.step(&next, &cfg, &set);
        !s.trades.is_empty()
    };
    let exact = 260_910_390_000_000;
    assert_eq!(entry * 1_003, exact * 1_000);
    assert!(leaves_at(exact));
    assert!(!leaves_at(exact - 1));
}

/// A market that climbs for five hours and falls back for less than two.
fn history(n: i64) -> History {
    let series = |count: i64, step: i64| -> Vec<Candle> {
        (0..count)
            .map(|i| {
                let at = (i * step) as f64 / 300_000.0;
                let (rounds, part) = ((at / 80.0).floor(), at % 80.0);
                let move_up = if part < 60.0 { part * 0.3 } else { 18.0 - (part - 60.0) * 0.6 };
                let close = 100.0 + rounds * 6.0 + move_up;
                candle(i * step, close + 0.1, close - 0.1, close)
            })
            .collect()
    };
    History { m1: series(5 * n, 60_000), m5: series(n, 300_000), h1: series(n, 300_000) }
}

fn measures(h: &History) -> Vec<Option<Measures>> {
    (0..h.m5.len())
        .map(|i| {
            let part = h.measured(i)?;
            let last = part[part.len() - 1].close;
            Some(Measures {
                rv_short: fx(0.012),
                rv_long: fx(0.01),
                volume_z: fx(1.0) - (last / 1_000_000_000_000 % 11 / 10) * fx(3.0),
                close_std20: fx(0.7),
            })
        })
        .collect()
}

#[test]
fn a_history_has_a_bar_for_each_candle_that_can_have_one() {
    let h = history(400);
    let t = RegimeThresholds::default();
    let mut m = measures(&h);
    assert!(m[118].is_none() && m[119].is_some());
    // The one-hour average needs 200 candles.
    let bars = h.bars_of(&m, &t);
    assert_eq!(bars.len(), 201);
    assert_eq!(bars[0].candle, h.m5[199]);
    assert_eq!(bars[200].candle, h.m5[399]);
    m[300] = None;
    let fewer = h.bars_of(&m, &t);
    assert_eq!(fewer.len(), 200);
    assert_eq!(fewer[101].candle, h.m5[301]);
    assert!(bars.len() <= h.m5.len() - 119);
    assert!(history(150).bars_of(&measures(&history(150)), &t).is_empty());
}

#[test]
fn a_report_covers_its_history() {
    let h = history(700);
    let m = measures(&h);
    let cfg = BacktestConfig::default();
    let rep = backtest_history(&h, &m, &RegimeThresholds::default(), &cfg, &SignalSettings::default());
    assert_eq!(rep.equity_curve.len(), 501);
    assert_eq!(rep.drawdown_curve.len(), 501);
    assert!(rep.equity_curve.len() <= h.m5.len() - 119);
    for (e, d) in rep.equity_curve.iter().zip(&rep.drawdown_curve) {
        assert_eq!(e.time_ms, d.time_ms);
        assert!(d.value >= 0);
    }
    let counted: usize = rep.regime_bar_counts.iter().map(|c| c.bars).sum();
    assert_eq!(counted, 501);
    let names: Vec<&str> = rep.regime_bar_counts.iter().map(|c| c.regime.name()).collect();
    let mut sorted = names.clone();
    sorted.sort();
    assert_eq!(names, sorted);
    assert!(names.len() > 1, "{names:?}");
}

#[test]
fn a_backtest_does_not_look_ahead() {
    let a = history(700);
    let mut b = history(700);
    let time = 450 * 300_000;
    for c in b.m5.iter_mut().filter(|c| c.open_time > time) {
        c.close += fx(20.0);
        c.high += fx(25.0);
    }
    for list in [&mut b.m1, &mut b.h1] {
        for c in list.iter_mut().filter(|c| c.open_time > time) {
            c.close += fx(20.0);
            c.high += fx(25.0);
        }
    }
    let cfg = BacktestConfig::default();
    let (t, set) = (RegimeThresholds::default(), SignalSettings::default());
    let ra = backtest_history(&a, &measures(&a), &t, &cfg, &set);
    let rb = backtest_history(&b, &measures(&b), &t, &cfg, &set);
    let until = |c: &Vec<CurvePoint>| -> Vec<CurvePoint> {
        c.iter().copied().filter(|p| p.time_ms <= time as u64).collect()
    };
    assert_eq!(until(&ra.equity_curve), until(&rb.equity_curve));
    assert_eq!(until(&ra.drawdown_curve), until(&rb.drawdown_curve));
    assert_eq!(until(&ra.equity_curve).len(), 252);
    let left = |r: &BacktestReport| -> Vec<(u64, Option<u64>, Option<i128>)> {
        r.trades
            .iter()
            .filter(|t| t.exit_time_ms.unwrap() <= time as u64)
            .filter(|t| t.exit_reason.as_deref() != Some("end_of_data"))
            .map(|t| (t.entry_time_ms, t.exit_time_ms, t.net_pnl_usdt))
            .collect()
    };
    assert_eq!(left(&ra), left(&rb));
    assert!(!left(&ra).is_empty());
}

#[test]
fn a_walk_has_a_part_for_each_window() {
    let h = history(1_000);
    let parts = walk_parts(&h, 2, fx(0.3)).unwrap();
    assert_eq!(parts.len(), 2);
    assert_eq!((parts[0].window.start, parts[0].window.end), (0, 500));
    assert_eq!((parts[1].window.start, parts[1].window.end), (500, 1_000));
    assert_eq!(parts[1].window.test_start, 850);
    assert_eq!(parts[1].test_ms, 850 * 300_000);
    assert_eq!(parts[1].label, "window_1_test_from_255000000");
    assert!(matches!(walk_parts(&h, 0, fx(0.3)), Err(WalkError::NoWindows)));
    assert!(matches!(walk_parts(&h, 9, fx(0.3)), Err(WalkError::WindowsTooSmall { window_size: 111 })));
    let piece = h.window(&parts[0].window);
    let cfg = BacktestConfig::default();
    let (t, set) = (RegimeThresholds::default(), SignalSettings::default());
    let m = measures(&piece);
    let whole = backtest_history(&piece, &m, &t, &cfg, &set);
    let test = test_window(&piece, &m, &t, &cfg, &set, parts[0].test_ms);
    assert!(test.trades.iter().all(|t| t.entry_time_ms >= parts[0].test_ms));
    let expected = whole.trades.iter().filter(|t| t.entry_time_ms >= parts[0].test_ms).count();
    assert_eq!(test.trades.len(), expected);
    assert_eq!(test.equity_curve, whole.equity_curve);
    let empty = History { m1: vec![], m5: history(1_000).m5, h1: history(1_000).h1 };
    assert!(walk_parts(&empty, 2, fx(0.3)).unwrap().is_empty());
}

#[test]
fn the_page_holds_all_the_data() {
    let bars = vec![
        bar(300_000, 261.0, 259.0, 260.0, Regime::Trending),
        bar(600_000, 261.0, 1.0, 100.0, Regime::Illiquid),
        bar(900_000, 101.0, 99.0, 100.0, Regime::Illiquid),
    ];
    let cfg = BacktestConfig::default();
    let mut rep = run_backtest(&bars, &bars[2].candle, &cfg, &SignalSettings::default());
    rep.trades[0].duration_ms = None;
    rep.trades[0].strategy = "a \"b\" </script>\\\n".to_string();
    let html = generate_html(&rep, fx(-1.25));
    let head = "<script type=\"application/json\" id=\"report-data\">";
    let from = html.find(head).unwrap() + head.len();
    let to = from + html[from..].find("</script>").unwrap();
    assert_eq!(&html[to..], "</script>\n</body></html>");
    let data: serde_json::Value = serde_json::from_str(&html[from..to]).unwrap();
    assert_eq!(data["config"]["starting_capital"].as_f64(), Some(10_000.0));
    assert_eq!(data["metrics"]["sharpe_ratio"].as_f64(), Some(-1.25));
    assert_eq!(data["metrics"]["trade_count"].as_u64(), Some(1));
    assert_eq!(data["trades"].as_array().unwrap().len(), 1);
    let trade = &data["trades"][0];
    assert_eq!(trade["strategy"].as_str(), Some("a \"b\" </script>\\\n"));
    assert_eq!(trade["regime"].as_str(), Some("Trending"));
    assert_eq!(trade["exit_reason"].as_str(), Some("stop_hit"));
    assert_eq!(trade["features"]["atr14_5m"].as_f64(), Some(10.0));
    assert_eq!(trade["features"]["vol_squeeze"].as_bool(), Some(false));
    assert!(trade["tp_price"].as_f64().unwrap() > 260.0);
    assert!(trade["duration_ms"].is_null());
    assert_eq!(data["equity_curve"].as_array().unwrap().len(), 3);
    assert_eq!(data["equity_curve"][0][0].as_u64(), Some(300_000));
    assert_eq!(data["equity_curve"][0][1].as_f64(), Some(10_000.0));
    assert_eq!(data["drawdown_curve"].as_array().unwrap().len(), 3);
    assert_eq!(data["score_buckets"].as_array().unwrap().len(), 5);
    assert_eq!(data["score_buckets"][0]["label"].as_str(), Some("0.0–0.2"));
    assert_eq!(data["regime_stats"][0]["trades"].as_u64(), Some(1));
    assert_eq!(data["regime_bar_counts"][0][0].as_str(), Some("Illiquid"));
    assert_eq!(data["regime_bar_counts"][0][1].as_u64(), Some(2));
    assert_eq!(report_data(&rep, fx(-1.25)), html[from..to]);
}

#[test]
fn the_books_balance() {
    let h = history(700);
    let cfg = BacktestConfig::default();
    let (t, set) = (RegimeThresholds::default(), SignalSettings::default());
    let rep = backtest_history(&h, &measures(&h), &t, &cfg, &set);
    assert!(rep.trades.len() > 1);
    let times = |a: i128, b: i128| -> i128 { (a * b + 500_000_000_000) / 1_000_000_000_000 };
    let mut sum = cfg.starting_capital;
    for t in &rep.trades {
        sum += t.net_pnl_usdt.unwrap();
        if t.exit_reason.as_deref() != Some("end_of_data") {
            sum -= times(times(t.exit_price.unwrap(), cfg.slippage_pct), t.qty);
        }
    }
    assert!((rep.metrics.final_equity - sum).abs() <= rep.trades.len() as i128);
}
