use binance_survival_bot::features::Features;
use binance_survival_bot::regime::Regime;
use binance_survival_bot::signals::{
    context_multiplier_for_mean_reversion, context_multiplier_for_momentum,
    context_multiplier_for_squeeze_breakout, context_multiplier_for_trend_breakout,
    dynamic_momentum_signal, entry_long_signal, intraday_momentum_signal,
    mean_reversion_range_signal, pick_best, trend_breakout_long_only,
    volatility_squeeze_breakout_signal, Action, ScoredSignal, Signal, SignalSettings,
};

fn fx(v: f64) -> i128 {
    (v * 1e12).round() as i128
}

fn f_base() -> Features {
    Features {
        ema20_1h: fx(0.0),
        ema50_1h: fx(0.0),
        ema200_1h: fx(0.0),
        ema20_5m: fx(0.0),
        ema50_5m: fx(0.0),
        atr14_5m: fx(100.0),
        atr14_1m: fx(100.0),
        atr_ratio_5m: fx(1.0),
        bb_mid20_5m: fx(0.0),
        bb_upper_5m: fx(0.0),
        bb_lower_5m: fx(0.0),
        bb_width_5m: fx(0.0),
        rsi14_5m: fx(50.0),
        rsi14_1m: fx(50.0),
        donchian_high20_5m: fx(200.0),
        donchian_low20_5m: fx(0.0),
        rv_short: fx(0.0),
        rv_long: fx(0.0),
        volume_z: fx(1.0),
        ema20_1m: fx(0.0),
        velocity_1m: fx(0.0),
        velocity_5m: fx(0.0),
        last_close_1m: fx(250.0),
        last_close_5m: fx(250.0),
        last_close_1h: fx(0.0),
    }
}

// trend_breakout_long_only

#[test]
fn no_entry_when_not_trending() {
    let f = f_base();
    let s = trend_breakout_long_only(Regime::Ranging, &f, fx(260.0), fx(1.2), false, &SignalSettings::default());
    assert_eq!(s.action, Action::Hold);
}

#[test]
fn entry_when_breakout_and_confirmed() {
    let f = f_base();
    let s = trend_breakout_long_only(Regime::Trending, &f, fx(260.0), fx(1.2), false, &SignalSettings::default());
    assert_eq!(s.action, Action::EnterLong);
    assert!(s.stop_price.unwrap() < fx(260.0));
    assert!(s.confidence >= fx(0.0) && s.confidence <= fx(1.0));
}

#[test]
fn no_entry_without_confirmation() {
    let mut f = f_base();
    f.volume_z = fx(-0.5);
    let s = trend_breakout_long_only(Regime::Trending, &f, fx(260.0), fx(1.05), false, &SignalSettings::default());
    assert_eq!(s.action, Action::Hold);
}

#[test]
fn trend_breakout_defers_during_vol_squeeze() {
    let f = f_base();
    // With vol_squeeze=true, trend breakout should defer.
    let s = trend_breakout_long_only(Regime::Trending, &f, fx(260.0), fx(1.2), true, &SignalSettings::default());
    assert_eq!(s.action, Action::Hold);
}

// trend_breakout volume-confirmation gate

#[test]
fn trend_breakout_volume_gate_off_by_default() {
    let mut f = f_base();
    f.volume_z = fx(0.5); // clears the weak `confirmed` bar but not the strong gate
    let s = trend_breakout_long_only(Regime::Trending, &f, fx(260.0), fx(1.2), false, &SignalSettings::default());
    assert_eq!(s.action, Action::EnterLong);
}

#[test]
fn trend_breakout_volume_gate_blocks_weak_volume_when_enabled() {
    let mut set = SignalSettings::default();
    set.breakout_require_volume = true;
    let mut f = f_base();
    f.volume_z = fx(0.5); // below the 2.0 default gate
    let s = trend_breakout_long_only(Regime::Trending, &f, fx(260.0), fx(1.2), false, &set);
    assert_eq!(s.action, Action::Hold);
    assert!(s.reason.contains("Strong volume confirmation"));
}

#[test]
fn trend_breakout_volume_gate_allows_strong_volume_when_enabled() {
    let mut set = SignalSettings::default();
    set.breakout_require_volume = true;
    let mut f = f_base();
    f.volume_z = fx(2.5); // clears the 2.0 default gate
    let s = trend_breakout_long_only(Regime::Trending, &f, fx(260.0), fx(1.2), false, &set);
    assert_eq!(s.action, Action::EnterLong);
}

// mean_reversion_range_signal

#[test]
fn mean_reversion_fires_near_lower_bb() {
    let mut f = f_base();
    f.bb_lower_5m = fx(100.0);
    f.bb_upper_5m = fx(104.0);
    f.bb_mid20_5m = fx(102.0);
    f.bb_width_5m = fx(0.04);
    f.donchian_low20_5m = fx(95.0);
    f.rsi14_5m = fx(35.0);
    let s = mean_reversion_range_signal(&f, fx(100.2), &SignalSettings::default());
    assert_eq!(s.action, Action::EnterLong);
    assert!(s.stop_price.unwrap() < fx(100.2));
}

#[test]
fn mean_reversion_blocked_by_wide_bb() {
    let mut f = f_base();
    f.bb_lower_5m = fx(100.0);
    f.bb_mid20_5m = fx(102.0);
    f.bb_width_5m = fx(0.10); // too wide — volatile, not ranging
    f.donchian_low20_5m = fx(95.0);
    f.rsi14_5m = fx(35.0);
    let s = mean_reversion_range_signal(&f, fx(100.2), &SignalSettings::default());
    assert_eq!(s.action, Action::Hold);
}

#[test]
fn mean_reversion_no_entry_when_price_too_high() {
    let mut f = f_base();
    f.bb_lower_5m = fx(100.0);
    f.bb_mid20_5m = fx(102.0);
    f.bb_width_5m = fx(0.04);
    f.donchian_low20_5m = fx(95.0);
    f.rsi14_5m = fx(35.0);
    let s = mean_reversion_range_signal(&f, fx(103.0), &SignalSettings::default());
    assert_eq!(s.action, Action::Hold);
}

#[test]
fn mean_reversion_no_entry_rsi_not_oversold() {
    let mut f = f_base();
    f.bb_lower_5m = fx(100.0);
    f.bb_mid20_5m = fx(102.0);
    f.bb_width_5m = fx(0.04);
    f.donchian_low20_5m = fx(95.0);
    f.rsi14_5m = fx(55.0);
    let s = mean_reversion_range_signal(&f, fx(100.2), &SignalSettings::default());
    assert_eq!(s.action, Action::Hold);
}

#[test]
fn mean_reversion_blocked_below_donchian_low() {
    let mut f = f_base();
    f.bb_lower_5m = fx(100.0);
    f.bb_mid20_5m = fx(102.0);
    f.bb_width_5m = fx(0.04);
    f.donchian_low20_5m = fx(101.0); // higher than price → breakdown
    f.rsi14_5m = fx(35.0);
    let s = mean_reversion_range_signal(&f, fx(100.2), &SignalSettings::default());
    assert_eq!(s.action, Action::Hold);
}

#[test]
fn mean_reversion_gets_support_proximity_bonus() {
    let mut f = f_base();
    f.bb_lower_5m = fx(100.0);
    f.bb_mid20_5m = fx(102.0);
    f.bb_width_5m = fx(0.04);
    f.atr14_5m = fx(5.0);
    f.donchian_low20_5m = fx(99.5); // within 0.5 ATR
    f.rsi14_5m = fx(35.0);
    f.volume_z = fx(-0.5); // volume exhaustion bonus
    let s = mean_reversion_range_signal(&f, fx(100.2), &SignalSettings::default());
    assert_eq!(s.action, Action::EnterLong);
    // Should have a meaningful confidence from all components
    assert!(s.confidence >= fx(0.1));
}

// mean_reversion velocity-confirmation gate

#[test]
fn mean_reversion_velocity_gate_off_by_default() {
    let mut f = f_base();
    f.bb_lower_5m = fx(100.0);
    f.bb_mid20_5m = fx(102.0);
    f.bb_width_5m = fx(0.04);
    f.donchian_low20_5m = fx(95.0);
    f.rsi14_5m = fx(35.0);
    f.velocity_1m = fx(-0.002); // price still falling — gate is off, should still enter
    let s = mean_reversion_range_signal(&f, fx(100.2), &SignalSettings::default());
    assert_eq!(s.action, Action::EnterLong);
}

#[test]
fn mean_reversion_velocity_gate_blocks_falling_price_when_enabled() {
    let mut set = SignalSettings::default();
    set.range_require_velocity = true;
    let mut f = f_base();
    f.bb_lower_5m = fx(100.0);
    f.bb_mid20_5m = fx(102.0);
    f.bb_width_5m = fx(0.04);
    f.donchian_low20_5m = fx(95.0);
    f.rsi14_5m = fx(35.0);
    f.velocity_1m = fx(-0.002); // still falling
    let s = mean_reversion_range_signal(&f, fx(100.2), &set);
    assert_eq!(s.action, Action::Hold);
    assert!(s.reason.contains("Velocity confirmation"));
}

#[test]
fn mean_reversion_velocity_gate_allows_turned_price_when_enabled() {
    let mut set = SignalSettings::default();
    set.range_require_velocity = true;
    let mut f = f_base();
    f.bb_lower_5m = fx(100.0);
    f.bb_mid20_5m = fx(102.0);
    f.bb_width_5m = fx(0.04);
    f.donchian_low20_5m = fx(95.0);
    f.rsi14_5m = fx(35.0);
    f.velocity_1m = fx(0.002); // already turned up
    let s = mean_reversion_range_signal(&f, fx(100.2), &set);
    assert_eq!(s.action, Action::EnterLong);
}

// volatility_squeeze_breakout_signal

#[test]
fn squeeze_breakout_fires_with_squeeze_and_breakout() {
    let mut f = f_base();
    f.last_close_5m = fx(210.0);
    f.bb_width_5m = fx(0.015);
    f.atr_ratio_5m = fx(0.7);
    f.volume_z = fx(0.5);
    let s = volatility_squeeze_breakout_signal(Regime::Trending, &f, fx(210.0), fx(1.0), true);
    assert_eq!(s.action, Action::EnterLong);
}

#[test]
fn squeeze_breakout_no_entry_without_squeeze() {
    let f = f_base();
    let s = volatility_squeeze_breakout_signal(Regime::Trending, &f, fx(210.0), fx(1.0), false);
    assert_eq!(s.action, Action::Hold);
}

#[test]
fn squeeze_breakout_no_entry_in_volatile_regime() {
    let f = f_base();
    let s = volatility_squeeze_breakout_signal(Regime::Volatile, &f, fx(210.0), fx(1.0), true);
    assert_eq!(s.action, Action::Hold);
}

// dynamic_momentum_signal

#[test]
fn momentum_fires_with_acceleration() {
    let mut f = f_base();
    f.velocity_1m = fx(0.005);
    f.velocity_5m = fx(0.002);
    f.rsi14_1m = fx(62.0);
    f.ema20_1m = fx(250.0);
    let s = dynamic_momentum_signal(&f, fx(255.0), &SignalSettings::default());
    assert_eq!(s.action, Action::EnterLong);
    assert!(s.confidence > fx(0.0));
}

#[test]
fn momentum_no_entry_when_decelerating() {
    let mut f = f_base();
    f.velocity_1m = fx(0.002);
    f.velocity_5m = fx(0.003); // 1m <= 5m
    f.rsi14_1m = fx(62.0);
    f.ema20_1m = fx(250.0);
    let s = dynamic_momentum_signal(&f, fx(255.0), &SignalSettings::default());
    assert_eq!(s.action, Action::Hold);
}

#[test]
fn momentum_no_entry_when_5m_falling() {
    let mut f = f_base();
    f.velocity_1m = fx(0.005);
    f.velocity_5m = fx(-0.002); // actively falling on 5m
    f.rsi14_1m = fx(62.0);
    f.ema20_1m = fx(250.0);
    let s = dynamic_momentum_signal(&f, fx(255.0), &SignalSettings::default());
    assert_eq!(s.action, Action::Hold);
}

// entry_long_signal dispatcher

#[test]
fn bearish_veto_blocks_all_entries() {
    let mut f = f_base();
    f.last_close_5m = fx(210.0);
    f.volume_z = fx(2.0);
    // Even with a great breakout setup, bearish_bias must veto.
    let s = entry_long_signal(Regime::Trending, &f, fx(210.0), fx(1.2), false, true, true, &SignalSettings::default());
    assert_eq!(s.action, Action::Hold);
    assert!(s.reason.contains("bearish") || s.reason.contains("HTF"));
}

#[test]
fn dispatcher_ranging_does_not_dispatch_mean_reversion_while_disabled() {
    // The strategy itself enters here (see `mean_reversion_fires_near_lower_bb`), but the
    // dispatcher does not ask it.
    let mut f = f_base();
    f.bb_lower_5m = fx(100.0);
    f.bb_upper_5m = fx(104.0);
    f.bb_mid20_5m = fx(102.0);
    f.bb_width_5m = fx(0.04);
    f.donchian_low20_5m = fx(95.0);
    f.rsi14_5m = fx(35.0);
    let s = entry_long_signal(Regime::Ranging, &f, fx(100.2), fx(1.0), false, false, false, &SignalSettings::default());
    assert_eq!(s.action, Action::Hold);
}

#[test]
fn dispatcher_volatile_always_holds() {
    let f = f_base();
    let s = entry_long_signal(Regime::Volatile, &f, fx(260.0), fx(2.0), false, true, false, &SignalSettings::default());
    assert_eq!(s.action, Action::Hold);
}

#[test]
fn dispatcher_illiquid_always_holds() {
    let f = f_base();
    let s = entry_long_signal(Regime::Illiquid, &f, fx(260.0), fx(1.0), false, false, false, &SignalSettings::default());
    assert_eq!(s.action, Action::Hold);
}

#[test]
fn dispatcher_trending_squeeze_wins_over_standard_breakout() {
    let mut f = f_base();
    f.last_close_5m = fx(210.0);
    f.bb_width_5m = fx(0.015);
    f.volume_z = fx(0.5);
    // vol_squeeze=true: squeeze breakout fires, trend breakout defers
    let s = entry_long_signal(Regime::Trending, &f, fx(210.0), fx(1.0), true, true, false, &SignalSettings::default());
    assert_eq!(s.action, Action::EnterLong);
    assert!(s.reason.contains("squeeze_breakout") || s.reason.contains("squeeze"));
}

#[test]
fn dispatcher_reason_includes_strategy_name() {
    let mut f = f_base();
    f.last_close_5m = fx(210.0);
    f.volume_z = fx(1.0);
    let s = entry_long_signal(Regime::Trending, &f, fx(210.0), fx(1.2), false, true, false, &SignalSettings::default());
    if s.action == Action::EnterLong {
        // Winning strategy name should be prefixed in the reason.
        assert!(s.reason.starts_with('['));
    }
}

/// The dispatcher ranks what the strategies offer and takes the best score.
#[test]
fn the_best_score_wins() {
    let offer = |name: &'static str, score: f64| ScoredSignal {
        name,
        score: fx(score),
        signal: Signal {
            action: Action::EnterLong,
            confidence: fx(0.5),
            score: 0,
            strategy: String::new(),
            reason: "because".to_string(),
            stop_price: Some(fx(90.0)),
        },
    };
    let s = pick_best(&vec![offer("a", 0.3), offer("b", 0.6), offer("c", 0.6)], fx(0.25));
    assert_eq!(s.strategy, "b");
    assert_eq!(s.reason, "[b] because");
    assert_eq!(s.score, fx(0.6));
    let none = pick_best(&vec![offer("a", 0.2)], fx(0.25));
    assert_eq!(none.action, Action::Hold);
    assert_eq!(none.reason, "No strategy scored above the minimum entry threshold.");
    assert_eq!(pick_best(&vec![], fx(0.25)).action, Action::Hold);
}

#[test]
fn the_surroundings_weigh_exactly() {
    let mut f = f_base();
    f.volume_z = fx(1.5);
    f.velocity_5m = fx(0.001);
    assert_eq!(context_multiplier_for_squeeze_breakout(&f, true), fx(1.3));
    assert_eq!(context_multiplier_for_trend_breakout(&f, true), fx(1.25));
    assert_eq!(context_multiplier_for_momentum(&f, true), fx(1.25));
    f.volume_z = fx(-0.1);
    f.bb_width_5m = fx(0.02);
    assert_eq!(context_multiplier_for_mean_reversion(&f, true), fx(1.35));
    assert_eq!(context_multiplier_for_mean_reversion(&f, false), fx(1.15));
}

#[test]
fn a_breakout_stops_at_a_distance_of_the_range() {
    let f = f_base();
    let set = SignalSettings::default();
    let s = trend_breakout_long_only(Regime::Trending, &f, fx(260.0), fx(1.2), false, &set);
    let m = dynamic_momentum_signal(&f, fx(260.0), &set);
    assert_eq!(m.action, Action::Hold);
    let stop = s.stop_price.unwrap();
    assert!(stop < fx(260.0) && stop >= fx(0.0));
    assert_eq!(intraday_momentum_signal(&f, fx(260.0), &set).reason, m.reason);
}

#[test]
fn momentum_needs_more_than_the_bounds() {
    let set = SignalSettings::default();
    let mut f = f_base();
    f.rsi14_1m = fx(62.0);
    f.ema20_1m = fx(250.0);
    f.velocity_1m = fx(0.005);
    f.velocity_5m = fx(-0.001);
    let s = dynamic_momentum_signal(&f, fx(255.0), &set);
    assert_eq!(s.action, Action::Hold);
    assert_eq!(s.stop_price, None);
    assert_eq!(s.reason, "5m trend falling (velocity_5m=-0.001000). Momentum against entry.");
    f.velocity_5m = fx(-0.001) + 1;
    let s = dynamic_momentum_signal(&f, fx(255.0), &set);
    assert_eq!(s.action, Action::EnterLong);
    assert_eq!(s.stop_price, Some(fx(255.0) - fx(150.0)));
    // The minute has to outpace the five minutes also where both fall.
    let mut slow = set;
    slow.momentum_velocity_min = fx(-0.01);
    f.velocity_1m = fx(-0.0005);
    f.velocity_5m = fx(-0.0005);
    let s = dynamic_momentum_signal(&f, fx(255.0), &slow);
    assert_eq!(s.action, Action::Hold);
    assert!(s.reason.starts_with("Momentum decelerating"));
}

#[test]
fn the_entry_zone_is_exact() {
    let set = SignalSettings::default();
    let mut f = f_base();
    f.atr14_5m = fx(1.0);
    f.bb_lower_5m = 100_000_000_000_100;
    f.bb_mid20_5m = fx(102.0);
    f.bb_upper_5m = fx(104.0);
    f.bb_width_5m = fx(0.04);
    f.rsi14_5m = fx(35.0);
    f.donchian_low20_5m = fx(99.5);
    // Half a percent over the lower band is 100.5000000001005.
    let zone = 100_500_000_000_100;
    let at = mean_reversion_range_signal(&f, zone, &set);
    let over = mean_reversion_range_signal(&f, zone + 1, &set);
    assert!(!at.reason.contains("not near lower BB"), "{}", at.reason);
    assert!(over.reason.contains("not near lower BB"), "{}", over.reason);
}
