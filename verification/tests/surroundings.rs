use binance_survival_bot::alert::AlertConfig;
use binance_survival_bot::app::{new_run_id, ping_url, unreachable_exchange, RunGuard};
use binance_survival_bot::clock::{low_ms, ms_of_reading};
use binance_survival_bot::config::{
    choose_base_url, fingerprint_first_last_4, is_loopback_http_base_url, is_rejected_login,
    log_filter, loop_settings, next_round, read_credential, switched_on, validate_base_url,
    BaseUrlError, Round,
};
use binance_survival_bot::control::{
    generate_token, new_running_job, ControlState, JobEnd, JobState,
};
use binance_survival_bot::dashboard::{
    capture, files_message, is_html_report, newest_first, plan_backtest, plan_fetch,
    reports_message, single_report_name, symbol_ok, BacktestRequest, RequestError,
};
use binance_survival_bot::execution::Mode;
use binance_survival_bot::features::{Candle, Features};
use binance_survival_bot::log_say::{
    say_action, say_connected, say_decision_with_reason, say_end, say_price, say_reason, say_start,
    say_state, say_wallet,
};
use binance_survival_bot::paths::{
    after_commit, choose_base_dir, path_names_file, prev_path_for, quarantine_name, resolve_paths,
    temporary_path_for, BaseDir, Commit,
};
use binance_survival_bot::pipeline::{
    audit_key_allowed, audit_log_path, audit_sanitize, auth_cooldown_minutes, candle_lag_ms,
    daily_loss_fraction, decision_summary, end_early, env_flag, gather_market_data, is_auth_error,
    is_binance_code, lag_limits, max_trades_per_day, may_ask_account, note_auth_rejection,
    open_day, pauses_account, price_url, public_ip, public_ip_of, risk_multiplier, waiting, AuditField, AuditValue, EarlyEnd,
    LagLimits,
};
use binance_survival_bot::regime::{Regime, RegimeResult};
use binance_survival_bot::state::{BotState, Position};
use binance_survival_bot::telemetry::{exit_record, TelemetryWriter};

fn fx(v: f64) -> i128 {
    (v * 1e12).round() as i128
}

fn some(s: &str) -> Option<String> {
    Some(s.to_string())
}

fn state() -> BotState {
    BotState::new_on(fx(100.0), "20240101".to_string())
}

#[test]
fn from_env_none_when_unconfigured() {
    assert!(AlertConfig::from_env(None, None, None, None, None, None).is_none());
}

#[test]
fn from_env_none_when_host_set_but_to_from_missing() {
    assert!(AlertConfig::from_env(some("smtp.example.com"), None, None, None, None, None).is_none());
}

#[test]
fn from_env_some_when_fully_configured() {
    let cfg = AlertConfig::from_env(
        some("smtp.example.com"),
        None,
        None,
        None,
        some("bot@example.com"),
        some("me@example.com"),
    )
    .expect("should be configured");
    assert_eq!(cfg.host, "smtp.example.com");
    assert_eq!(cfg.port, 587);
    let other = AlertConfig::from_env(some("h"), some("25"), some("u"), None, some("a"), some("b"));
    let other = other.unwrap();
    assert_eq!(other.port, 25);
    assert_eq!(other.username, "u");
    assert_eq!(other.password, "");
    let odd = AlertConfig::from_env(some("h"), some("70000"), None, None, some("a"), some("b"));
    assert_eq!(odd.unwrap().port, 587);
    assert!(AlertConfig::from_env(some("h"), None, None, None, some(" "), some("b")).is_none());
}

#[test]
fn the_bot_says_what_it_does() {
    assert_eq!(say_start(Mode::Practice, "run-1-0"), "Start: mode=Practice run_id=run-1-0");
    assert_eq!(say_connected(true), "Connected to Binance.");
    assert_eq!(say_connected(false), "Not connected to Binance.");
    assert_eq!(say_price(fx(50123.456)), "BTC price: 50123.46 USDT");
    assert_eq!(
        say_wallet(fx(10.0), fx(0.5), fx(20.129)),
        "Wallet: USDT balance=10.00, BTC=0.50000000, Total Equity=20.13 USDT"
    );
    assert_eq!(say_state(&Position::Flat), "State: Flat.");
    let mut st = state();
    st.enter_long(fx(100.0), fx(1.0), fx(90.0), None, 0);
    assert_eq!(say_state(&st.position), "State: Long qty=1.00000000 entry=100.00 stop=90.00");
    let external = Position::ExternalInventory { btc_qty: fx(0.25), detected_time_ms: 0 };
    assert_eq!(say_state(&external), "State: ExternalInventory btc_qty=0.25000000");
    assert_eq!(say_action("go"), "go");
    assert_eq!(say_reason("why"), "Reason: why");
    assert_eq!(say_end("  done "), "End: done");
    assert_eq!(say_decision_with_reason(Mode::Live, " WAIT ", "  "), "Decision (Live): WAIT");
    assert_eq!(
        say_decision_with_reason(Mode::Live, "WAIT", " rest "),
        "Decision (Live): WAIT -> rest"
    );
}

#[test]
fn a_run_has_its_last_words() {
    let mut seq = 4;
    assert_eq!(new_run_id(&mut seq, 17), "run-17-4");
    assert_eq!(seq, 5);
    assert_eq!(ping_url("https://x"), "https://x/api/v3/ping");
    let mut g = RunGuard::new(Mode::Practice);
    assert!(g.decision_line().is_none());
    assert_eq!(g.end_line(), "End: no money moved");
    g.enable_decision();
    let out = g.take_outcome(&waiting(Mode::Practice, Regime::Volatile, " calm "));
    assert_eq!(out.regime, Regime::Volatile);
    assert_eq!(g.decision_line().unwrap(), "Decision (Practice): WAIT -> calm");
    assert!(!unreachable_exchange(Mode::Live).did_place_order);
}

#[test]
fn the_address_has_to_be_safe() {
    assert!(validate_base_url("https://api.binance.com", false).is_ok());
    assert!(validate_base_url("http://127.0.0.1:9", false).is_ok());
    let e = validate_base_url("http://example.com", false).unwrap_err();
    assert_eq!(e, BaseUrlError::Insecure);
    assert!(e.message().contains("BOT_ALLOW_INSECURE_BASE_URL=1"));
    assert!(validate_base_url("http://example.com", true).is_ok());
    assert_eq!(validate_base_url("ftp://x", true).unwrap_err(), BaseUrlError::NoScheme);
    assert!(is_loopback_http_base_url("http://[::1]/"));
    assert_eq!(choose_base_url(Some("  ")), "https://api.binance.com");
    assert_eq!(choose_base_url(Some(" http://a ")), "http://a");
}

#[test]
fn secrets_are_shown_in_part() {
    assert_eq!(fingerprint_first_last_4("  "), "(missing)");
    assert_eq!(fingerprint_first_last_4(" abcdefgh "), "abcd…efgh");
    assert_eq!(fingerprint_first_last_4("ab"), "ab…ab");
    let odd = "aé€🙂";
    let bytes = odd.as_bytes();
    let first = String::from_utf8_lossy(&bytes[..4]);
    let last = String::from_utf8_lossy(&bytes[bytes.len() - 4..]);
    assert_eq!(fingerprint_first_last_4(odd), format!("{first}…{last}"));
    let cut = "é€é";
    let bytes = cut.as_bytes();
    let first = String::from_utf8_lossy(&bytes[..4]);
    let last = String::from_utf8_lossy(&bytes[bytes.len() - 4..]);
    assert_eq!(fingerprint_first_last_4(cut), format!("{first}…{last}"));
    assert_eq!(read_credential(Some(" k "), false).unwrap(), "k");
    assert!(read_credential(None, false).is_none());
    assert_eq!(read_credential(None, true).unwrap(), "");
}

#[test]
fn the_loop_is_set_and_paused() {
    let set = loop_settings(Some("5"), Some("x"), Some("1"));
    assert_eq!(set.sleep_secs, 5);
    assert_eq!(set.duration_secs, 3600);
    assert!(set.stop_on_error);
    assert_eq!(next_round(0, &set, false, 0), Round::Run { number: 1 });
    assert_eq!(next_round(0, &set, true, 0), Round::Rest);
    assert_eq!(next_round(3_600_000, &set, true, 0), Round::Finish);
    assert!(switched_on(Some("1")) && !switched_on(Some("true")));
    assert!(log_filter(Some("DEBUG")).starts_with("binance_survival_bot=debug"));
    assert!(log_filter(None).contains("log_say=info"));
    assert!(is_rejected_login("x -2015 y") && !is_rejected_login("2015"));
}

#[test]
fn the_token_is_a_digest_unless_it_is_set() {
    assert_eq!(generate_token(some("mine"), 1, 2, 3), "mine");
    assert_eq!(
        generate_token(some("  "), 1_700_000_000_000, 42, 7),
        "2b5a9da4676783e7f7d6b225b1765f3c20e06eb222afb9b56a7266f9c423b288"
    );
    let c = ControlState::new(true, "t".to_string());
    assert!(c.token_matches(Some("t")));
    assert!(!c.token_matches(Some("T")));
    assert!(!c.token_matches(None));
}

#[test]
fn one_job_at_a_time() {
    let mut c = ControlState::new(false, "t".to_string());
    let id = c.start_job("backtest", 10).unwrap();
    assert_eq!(id, "job-backtest-10-0");
    assert!(c.start_job("backtest", 11).is_none());
    let job = c.get_job(&id).unwrap();
    assert_eq!(job.status, JobState::Running);
    assert_eq!(job.message, "Running…");
    c.update_job(
        &id,
        JobEnd {
            status: JobState::Done,
            message: "ok".to_string(),
            result_paths: vec!["a".to_string()],
            finished_at_ms: 20,
        },
    );
    c.release_job_slot();
    let job = c.get_job(&id).unwrap();
    assert_eq!(job.status.name(), "done");
    assert_eq!(job.result_paths, vec!["a".to_string()]);
    assert_eq!(job.finished_at_ms, Some(20));
    assert!(c.try_start_job());
    assert!(!c.try_start_job());
    assert!(c.get_job("nobody").is_none());
}

#[test]
fn a_job_changes_nothing_else() {
    let mut c = ControlState::new(true, "t".to_string());
    c.insert_job(new_running_job("job-k-1-0", "k", 1));
    let before = (c.paused, c.loop_mode, c.job_seq);
    let id = c.start_job("fetch", 12).unwrap();
    assert_eq!((c.paused, c.loop_mode), (before.0, before.1));
    assert_eq!(c.job_seq, before.2 + 1);
    assert_eq!(c.token, "t");
    assert_eq!(c.jobs.len(), 2);
    assert_eq!(c.jobs[0].id, "job-k-1-0");
    let job = &c.jobs[1];
    assert_eq!((job.id.as_str(), job.kind.as_str()), (id.as_str(), "fetch"));
    assert_eq!(job.started_at_ms, 12);
    assert_eq!(job.finished_at_ms, None);
    assert!(job.result_paths.is_empty());
    assert!(c.start_job("fetch", 13).is_none());
    assert_eq!(c.jobs.len(), 2);
}

#[test]
fn only_the_last_jobs_are_remembered() {
    let mut c = ControlState::new(false, "t".to_string());
    for i in 0..60u64 {
        let id = c.new_job_id("k", i);
        c.insert_job(new_running_job(&id, "k", i));
    }
    assert_eq!(c.jobs.len(), 50);
    assert!(c.get_job("job-k-9-9").is_none());
    assert!(c.get_job("job-k-10-10").is_some());
}

fn features() -> Features {
    Features {
        ema20_1h: 1,
        ema50_1h: 2,
        ema200_1h: 3,
        ema20_5m: 4,
        ema50_5m: 5,
        atr14_5m: 6,
        atr14_1m: 7,
        atr_ratio_5m: 8,
        bb_mid20_5m: 9,
        bb_upper_5m: 10,
        bb_lower_5m: 11,
        bb_width_5m: 12,
        rsi14_5m: 13,
        rsi14_1m: 14,
        donchian_high20_5m: 15,
        donchian_low20_5m: 16,
        rv_short: 17,
        rv_long: 18,
        volume_z: 19,
        ema20_1m: 20,
        velocity_1m: 21,
        velocity_5m: 22,
        last_close_1m: 23,
        last_close_5m: 24,
        last_close_1h: 25,
    }
}

#[test]
fn closed_trades_join_the_dashboard() {
    let reading = RegimeResult {
        regime: Regime::Trending,
        reason: "up".to_string(),
        trend_strength: 0,
        vol_ratio: 0,
        vol_squeeze: false,
        htf_bullish: true,
        bearish_bias: false,
    };
    let f = features();
    let mut snap = None;
    for i in 0..25u64 {
        let mut st = state();
        st.enter_long(fx(100.0), fx(2.0), fx(90.0), Some(fx(130.0)), 0);
        st.realized_pnl_usdt = fx(10.0);
        let s = capture(
            snap, &st, &f, &reading, fx(105.0), i, 1, 2, 3, "HOLD_LONG", "x", Mode::Practice,
        );
        assert_eq!(s.shown.unrealised_pnl_usdt, fx(10.0));
        assert_eq!(s.shown.tp_price, fx(130.0));
        assert_eq!(s.position, "Long");
        st.exit_to_flat_with_cooldown(0);
        st.realized_pnl_usdt = if i % 2 == 0 { fx(12.0) } else { fx(9.0) };
        let t = capture(
            Some(s), &st, &f, &reading, fx(106.0), i, 1, 2, 3, "EXIT_LONG", "y", Mode::Practice,
        );
        assert!(t.shown.is_flat);
        let last = t.recent_trades[t.recent_trades.len() - 1];
        assert_eq!(last.result(), if i % 2 == 0 { "WIN" } else { "LOSS" });
        assert_eq!(last.pnl_usdt, if i % 2 == 0 { fx(2.0) } else { fx(-1.0) });
        assert_eq!(last.exit_price, fx(106.0));
        assert_eq!(t.features, f);
        snap = Some(t);
    }
    assert_eq!(snap.unwrap().recent_trades.len(), 20);
}

#[test]
fn requests_are_checked() {
    let req = || BacktestRequest {
        symbol: None,
        data_dir: None,
        start_frac: None,
        end_frac: None,
        walk_forward: None,
        test_fraction: None,
    };
    let p = plan_backtest(req()).unwrap();
    assert_eq!(p.symbol, "BTCUSDT");
    assert_eq!(p.data_dir, "backtest_data");
    assert!(!p.has_range);
    assert_eq!(p.end_frac, fx(1.0));
    assert_eq!(p.test_fraction, fx(0.3));
    let mut bad = req();
    bad.symbol = some("../x");
    assert_eq!(plan_backtest(bad).unwrap_err(), RequestError::BadSymbol);
    let mut bad = req();
    bad.data_dir = some("/etc");
    let e = plan_backtest(bad).unwrap_err();
    assert_eq!(e.message(), "directory must be a relative path");
    let f = plan_fetch(None, Some(9_999), None).unwrap();
    assert_eq!(f.days, 720);
    assert!(plan_fetch(some(""), None, None).is_err());
    assert!(symbol_ok("abcXYZ019") && !symbol_ok("é"));
    assert_eq!(single_report_name("BTCUSDT", 5), "backtest_BTCUSDT_5.html");
    assert_eq!(reports_message(2), "Wrote 2 report(s).");
    assert_eq!(files_message(3), "Fetched 3 interval file(s).");
}

#[test]
fn reports_are_listed_newest_first() {
    assert_eq!(newest_first(&vec![5, 9, 5, 1]), vec![1, 0, 2, 3]);
    assert!(newest_first(&vec![]).is_empty());
    assert!(is_html_report("a.html") && is_html_report("a.b.html"));
    assert!(!is_html_report(".html") && !is_html_report("a.htm"));
}

#[test]
fn files_have_their_places() {
    let p = resolve_paths("/srv/bot", None, Some(" cache "), Some("/run/bot.lock"));
    assert_eq!(p.state_path, "/srv/bot/bot_state.json");
    assert_eq!(p.data_dir, "/srv/bot/cache");
    assert_eq!(p.lock_path, "/run/bot.lock");
    assert!(matches!(choose_base_dir(None), BaseDir::OfProgram));
    assert!(matches!(choose_base_dir(Some("rel")), BaseDir::NotAbsolute(_)));
    assert!(matches!(choose_base_dir(Some(" /abs ")), BaseDir::Named(_)));
    assert_eq!(prev_path_for("/a/b.json"), "/a/b.json.prev");
    assert_eq!(temporary_path_for("/a/b.json", 5, 6), "/a/b.json.tmp.5.6");
    assert_eq!(quarantine_name("b.json", "invalid", 5, 6), "b.json.corrupt.invalid.5.6");
    assert!(path_names_file("/a/b") && !path_names_file("/a/..") && !path_names_file("/"));
    assert_eq!(after_commit(true, true, true), Commit::Done);
    assert_eq!(after_commit(false, false, true), Commit::RollBack);
    assert_eq!(after_commit(false, true, true), Commit::Failed);
}

#[test]
fn a_refused_key_pauses_the_account() {
    let mut st = state();
    assert!(may_ask_account(&st, 10_000_000, "k", "s"));
    assert!(!may_ask_account(&st, 10_000_000, " ", "s"));
    note_auth_rejection(&mut st, 10_000_000);
    assert!(!may_ask_account(&st, 10_000_001, "k", "s"));
    assert_eq!(auth_cooldown_minutes(&st, 10_000_000), 60);
    assert!(may_ask_account(&st, 13_600_000, "k", "s"));
    assert!(is_auth_error("{\"code\":-2015,\"msg\":\"x\"}"));
    assert!(!is_auth_error("timeout"));
    assert!(is_binance_code("{\"code\":-2013}", -2013));
    assert!(!is_binance_code("{\"code\":-2013}", -2011));
}

#[test]
fn a_run_may_end_early() {
    let o = end_early(Mode::Live, None, EarlyEnd::KeyRefused);
    assert_eq!(o.reason, "Binance rejected the API key. Cooling down for 60m.");
    assert_eq!(o.regime, Regime::Ranging);
    assert!(!o.did_place_order);
    let o = end_early(Mode::Live, Some(Regime::Volatile), EarlyEnd::NoWallet);
    assert_eq!(o.reason, "I cannot see your wallet. We only watch.");
    assert_eq!(o.regime, Regime::Volatile);
    assert_eq!(
        end_early(Mode::Live, None, EarlyEnd::NoHistory).reason,
        "We wait. Not enough candle history yet."
    );
    assert_eq!(
        end_early(Mode::Live, None, EarlyEnd::Dead).reason,
        "We lost 20%. Bot is dead. No more trading."
    );
    assert!(pauses_account(true, "anything"));
    assert!(pauses_account(false, "401 Unauthorized"));
    assert!(!pauses_account(false, "timeout"));
    assert_eq!(low_ms(0x1_0000_0000_0000_0005), 5);
    assert_eq!(low_ms(7), 7);
    assert_eq!(ms_of_reading(Some(0x1_0000_0000_0000_0005)), Some(5));
    assert_eq!(ms_of_reading(None), None);
}

#[test]
fn a_day_opens() {
    let mut st = state();
    st.equity_usdt = fx(121.0);
    let o = open_day(&mut st, false, 5, 24);
    assert!(o.milestone && !o.dead);
    assert_eq!(st.start_equity_usdt, fx(121.0));
    assert_eq!(st.risk_reduction_until_ms, 5 + 86_400_000);
    assert_eq!(max_trades_per_day(&st), 5);
    assert_eq!(risk_multiplier(&st, 6, Some(fx(0.5)), Some(fx(1.0))), fx(0.625));
    st.equity_usdt = fx(90.0);
    let o = open_day(&mut st, false, 6, 24);
    assert!(o.died_now && o.dead);
    let o = open_day(&mut st, true, 7, 24);
    assert!(o.dead && !o.revived);
    st.equity_usdt = fx(115.0);
    let o = open_day(&mut st, true, 8, 24);
    assert!(o.revived && !o.dead);
    assert_eq!(daily_loss_fraction(fx(100.0), fx(90.0)), fx(0.1));
    assert_eq!(daily_loss_fraction(fx(0.0), fx(90.0)), 0);
}

#[test]
fn old_data_is_noticed() {
    let c = |t: i64| Candle { open_time: t, open: 1, high: 1, low: 1, close: 1, volume: 1 };
    assert_eq!(candle_lag_ms(&vec![c(100)], 160), Some(60));
    assert_eq!(candle_lag_ms(&vec![], 160), None);
    let limits = lag_limits(None, Some("x"), Some("7"), None);
    assert_eq!(limits, LagLimits { max_1m_min: 5, max_5m_min: 7, max_1h_min: 180 });
    let md = gather_market_data(7, None, vec![c(0)], vec![c(0)], vec![c(0)], 300_000, &limits);
    assert!(!md.stale_any);
    assert_eq!(md.min_notional, fx(5.0));
    let md = gather_market_data(7, None, vec![c(0)], vec![c(0)], vec![c(0)], 300_001, &limits);
    assert!(md.stale_any);
    let md = gather_market_data(7, None, vec![c(0)], vec![], vec![c(0)], 1, &limits);
    assert!(md.stale_any);
    assert_eq!(md.lag_5m_ms, u64::MAX);
}

#[test]
fn the_audit_log_holds_only_what_it_may() {
    assert!(audit_key_allowed("run_id") && !audit_key_allowed("api_key"));
    let field = |k: &str, value: AuditValue| AuditField { key: k.to_string(), value };
    let kept = audit_sanitize(&vec![
        field("api_secret", AuditValue::Text("s".to_string())),
        field("reason", AuditValue::Text("é".repeat(300))),
        field("price", AuditValue::Number("1.5".to_string())),
        field("stop", AuditValue::Nested),
        field("was_capped", AuditValue::Bool(true)),
        field("qty", AuditValue::Null),
    ]);
    let keys: Vec<&str> = kept.iter().map(|f| f.key.as_str()).collect();
    assert_eq!(keys, vec!["reason", "price", "was_capped", "qty"]);
    match &kept[0].value {
        AuditValue::Text(t) => assert_eq!(t.chars().count(), 200),
        _ => panic!("expected a text"),
    }
    assert!(audit_log_path(some(" ")).is_none());
    assert_eq!(audit_log_path(some("a.log")).unwrap(), "a.log");
    assert!(env_flag(Some("YES")) && !env_flag(Some("Yes")) && !env_flag(None));
}

#[test]
fn a_decision_is_summed_up() {
    let s = decision_summary(
        "r", Mode::Live, Regime::Ranging, "Flat", "WAIT", Some((1, 3)), Some(fx(0.05)), None,
        Some(true),
    );
    assert_eq!(
        s,
        "Decision summary: run_id=r mode=Live regime=Ranging position=Flat action=WAIT trades_today=1/3 dd=5.00% daily_loss=0.00% throttle=yes"
    );
    assert_eq!(price_url("https://x", "B"), "https://x/api/v3/ticker/price?symbol=B");
    assert_eq!(public_ip(None, " 1.2.3.4\n").unwrap(), "1.2.3.4");
    assert_eq!(public_ip(some("5.6.7.8"), "{}").unwrap(), "5.6.7.8");
    assert!(public_ip(None, "  ").is_none());
    assert_eq!(public_ip_of(r#"{"ip":"9.8.7.6"}"#).unwrap(), "9.8.7.6");
    assert_eq!(public_ip_of(" 9.8.7.6\n").unwrap(), "9.8.7.6");
    assert_eq!(public_ip_of(r#"{"ip":7}"#).unwrap(), r#"{"ip":7}"#);
    assert!(public_ip_of(r#"{"ip":""}"#).is_none());
    assert!(public_ip_of("\n").is_none());
}

#[test]
fn exits_are_recorded() {
    let r = exit_record("BTCUSDT", 1_000, fx(100.0), 61_000, fx(110.0), fx(2.0));
    assert_eq!(r.gross_pnl_usdt, fx(20.0));
    assert_eq!(r.duration_ms, 60_000);
    assert!(r.trade_id.contains("BTCUSDT"));
    assert!(TelemetryWriter::for_path(some("  ")).path.is_none());
    assert_eq!(TelemetryWriter::for_path(some("t")).path, some("t"));
}
