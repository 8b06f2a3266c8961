use binance_survival_bot::state::{
    ms, ms_minutes, now_ms, recover_state, restore_previous_first, today_yyyymmdd_utc, BotState,
    Position, PositionDecision, StateFile,
};

fn fx(v: f64) -> i128 {
    (v * 1e12).round() as i128
}

fn to_f(v: i128) -> f64 {
    v as f64 / 1e12
}

fn today() -> String {
    "20240102".to_string()
}

fn stop_of(st: &BotState) -> i128 {
    match st.position {
        Position::Long { stop_price, .. } => stop_price,
        _ => panic!("expected long"),
    }
}

#[test]
fn load_or_init_refuses_to_trade_on_corrupt_state_with_no_prev() {
    let file = StateFile::Invalid { detail: "{ this is not valid json".to_string() };
    let result = recover_state(file, None, false, fx(100.0), today());
    match result {
        Ok(_) => panic!(
            "corrupt state with no usable .prev must refuse to trade, not silently return a fresh state"
        ),
        Err(e) => {
            assert_eq!(
                e.message(),
                "bot_state.json unrecoverable (invalid_json: { this is not valid json); refusing to trade"
            );
        }
    }
    let file = StateFile::Unreadable { detail: "denied".to_string() };
    assert!(recover_state(file, None, false, fx(100.0), today()).is_err());
}

#[test]
fn load_or_init_accepts_fresh_state_when_explicitly_overridden() {
    let file = StateFile::Invalid { detail: "{ this is not valid json".to_string() };
    let result = recover_state(file, None, true, fx(100.0), today());
    assert!(result.is_ok(), "explicit override must still allow a fresh state");
    assert_eq!(to_f(result.ok().unwrap().state.starting_usdt), 100.0);
}

#[test]
fn load_or_init_still_recovers_from_prev_when_available() {
    let good = BotState::new(fx(250.0));
    let file = StateFile::Invalid { detail: "{ not valid json at all".to_string() };
    let result = recover_state(file, Some(good), false, fx(999.0), today());
    assert!(result.is_ok(), "must recover from .prev before refusing to trade");
    let r = result.ok().unwrap();
    assert_eq!(to_f(r.state.starting_usdt), 250.0);
    assert!(r.rewrite);
}

#[test]
fn an_older_file_is_filled_in() {
    let mut st = BotState::new_on(0, String::new());
    st.equity_usdt = fx(120.0);
    let r = recover_state(StateFile::Parsed { state: st }, None, false, fx(100.0), today()).ok().unwrap();
    assert_eq!(r.state.starting_usdt, fx(100.0));
    assert_eq!(r.state.peak_equity_usdt, fx(120.0));
    assert_eq!(r.state.day_anchor_yyyymmdd, "20240102");
    assert!(!r.rewrite);
    let fresh = recover_state(StateFile::Missing, None, false, fx(7.0), today()).ok().unwrap();
    assert_eq!(fresh.state.equity_usdt, fx(7.0));
    assert!(restore_previous_first(false, true));
    assert!(!restore_previous_first(true, true));
}

#[test]
fn trailing_stop_moves_up_after_1r() {
    let mut st = BotState::new(fx(1000.0));
    st.enter_long(fx(100.0), fx(1.0), fx(90.0), None, 0);
    // R = 10, so +1R is 110
    let (_d, _msg) = st.manage_open_position(fx(111.0), fx(2.0), 1, false);
    // peak 111, trail = 111 - 4.4 = 106.6
    assert!(stop_of(&st) > fx(90.0));
    assert!((to_f(stop_of(&st)) - 106.6).abs() < 1e-6);
}

#[test]
fn time_stop_exits_after_2h_without_new_high() {
    let mut st = BotState::new(fx(1000.0));
    st.enter_long(fx(100.0), fx(1.0), fx(90.0), None, 0);
    // no new high, last_peak_time stays at 0
    let (d, _msg) = st.manage_open_position(fx(99.0), fx(2.0), ms(2) + 1, false);
    assert_eq!(d, PositionDecision::ExitLong);
}

#[test]
fn bearish_bias_exits_after_1h_not_2h() {
    let mut st = BotState::new(fx(1000.0));
    st.enter_long(fx(100.0), fx(1.0), fx(90.0), None, 0);
    // 1h + 1ms elapsed, no new high
    let (d, msg) = st.manage_open_position(fx(99.0), fx(2.0), ms(1) + 1, true);
    assert_eq!(d, PositionDecision::ExitLong);
    assert!(msg.contains("HTF bearish") || msg.contains("bearish"));
}

#[test]
fn bearish_bias_uses_tighter_trail() {
    let mut st = BotState::new(fx(1000.0));
    st.enter_long(fx(100.0), fx(1.0), fx(90.0), None, 0);
    // +0.5R trigger = 105, ATR = 2
    let (_d, _msg) = st.manage_open_position(fx(106.0), fx(2.0), 1, true);
    // peak 106, trail = 106 - 1.5*2 = 103.0 (tighter than normal 2.2)
    assert!(stop_of(&st) > fx(90.0));
    assert!((to_f(stop_of(&st)) - 103.0).abs() < 1e-6);
}

#[test]
fn the_stop_never_falls() {
    let mut st = BotState::new(fx(1000.0));
    st.enter_long(fx(100.0), fx(1.0), fx(90.0), None, 0);
    st.manage_open_position(fx(120.0), fx(2.0), 1, false);
    let high = stop_of(&st);
    st.manage_open_position(fx(118.0), fx(9.0), 2, false);
    assert_eq!(stop_of(&st), high);
    let (d, _) = st.manage_open_position(high, fx(2.0), 3, false);
    assert_eq!(d, PositionDecision::ExitLong);
}

#[test]
fn a_new_day_starts_over() {
    let mut st = BotState::new_on(fx(100.0), "20240101".to_string());
    st.bump_trades_today();
    st.sync_equity_and_day_on(fx(110.0), "20240101".to_string());
    assert_eq!(st.trades_today, 1);
    assert_eq!(st.peak_equity_usdt, fx(110.0));
    st.sync_equity_and_day_on(fx(105.0), "20240102".to_string());
    assert_eq!(st.trades_today, 0);
    assert_eq!(st.daily_loss_start_equity_usdt, fx(105.0));
    assert_eq!(st.peak_equity_usdt, fx(110.0));
}

#[test]
fn death_is_at_a_fifth_and_final() {
    let mut st = BotState::new_on(fx(100.0), today());
    assert_eq!(st.eval_death_and_unlock(fx(80.1), 0), (false, false));
    assert_eq!(st.eval_death_and_unlock(fx(80.0), 0), (true, false));
    assert!(st.is_dead);
    assert_eq!(st.eval_death_and_unlock(fx(500.0), 0).0, false);
    assert!(st.is_dead);
    let mut up = BotState::new_on(fx(100.0), today());
    assert_eq!(up.eval_death_and_unlock(fx(120.0), 0), (false, true));
    assert!(up.profit_unlocked);
}

#[test]
fn pauses_end_on_time() {
    let mut st = BotState::new_on(fx(100.0), today());
    st.enter_long(fx(100.0), fx(1.0), fx(90.0), None, 0);
    st.exit_to_flat_with_cooldown(1_000);
    assert_eq!(st.position, Position::Flat);
    assert!(st.in_cooldown(1_000));
    let end = st.cooldown_until_ms;
    assert!(!st.in_cooldown(end));
    assert!(!st.in_hibernation(0));
    assert!(!st.in_auth_cooldown(0));
    assert_eq!(ms(2), 7_200_000);
    assert_eq!(ms_minutes(3), 180_000);
}

#[test]
fn a_stop_order_is_remembered_and_forgotten() {
    let mut st = BotState::new_on(fx(100.0), today());
    st.enter_long(fx(100.0), fx(1.0), fx(90.0), None, 0);
    st.set_stop_order(42, Some(fx(91.0)));
    match st.position {
        Position::Long { stop_order_id, exchange_stop_price, .. } => {
            assert_eq!(stop_order_id, Some(42));
            assert_eq!(exchange_stop_price, Some(fx(91.0)));
        }
        _ => panic!("expected long"),
    }
    assert_eq!(st.last_stop_order_id, Some(42));
    st.set_exchange_stop_price_from_exchange(Some(fx(92.0)));
    st.clear_stop_order_id_in_position();
    match st.position {
        Position::Long { stop_order_id, .. } => assert_eq!(stop_order_id, None),
        _ => panic!("expected long"),
    }
    st.clear_last_stop_order_id();
    assert_eq!(st.last_stop_order_id, None);
}

#[test]
fn fees_are_added_up() {
    let mut st = BotState::new_on(fx(100.0), today());
    st.apply_fee(fx(0.25));
    assert_eq!(st.fees_usdt, fx(0.25));
    assert_eq!(st.equity_usdt, fx(99.75));
    assert!(!st.is_dead);
    st.apply_fee(fx(99.75));
    assert!(st.is_dead);
}

#[test]
fn the_clock_runs() {
    let now = now_ms().unwrap();
    assert!(now > 1_600_000_000_000);
    let day = today_yyyymmdd_utc();
    assert_eq!(day.len(), 8);
    assert!(day.as_str() >= "20200101");
}
