use binance_survival_bot::features::Features;
use binance_survival_bot::regime::{detect_regime, Regime, RegimeThresholds};

fn fx(v: f64) -> i128 {
    (v * 1e12).round() as i128
}

fn base_features() -> Features {
    Features {
        ema20_1h: fx(100.0),
        ema50_1h: fx(100.0),
        ema200_1h: fx(100.0),
        ema20_5m: fx(100.0),
        ema50_5m: fx(100.0),
        atr14_5m: fx(10.0),
        atr14_1m: fx(10.0),
        atr_ratio_5m: fx(1.0),
        bb_mid20_5m: fx(100.0),
        bb_upper_5m: fx(102.0),
        bb_lower_5m: fx(98.0),
        bb_width_5m: fx(0.04),
        rsi14_5m: fx(50.0),
        rsi14_1m: fx(50.0),
        donchian_high20_5m: fx(0.0),
        donchian_low20_5m: fx(0.0),
        rv_short: fx(0.01),
        rv_long: fx(0.01),
        volume_z: fx(0.0),
        ema20_1m: fx(100.0),
        velocity_1m: fx(0.0),
        velocity_5m: fx(0.0),
        last_close_1m: fx(0.0),
        last_close_5m: fx(0.0),
        last_close_1h: fx(0.0),
    }
}

#[test]
fn illiquid_has_priority() {
    let mut f = base_features();
    f.volume_z = fx(-2.0);
    f.rv_short = fx(0.05);
    f.rv_long = fx(0.01);
    f.ema20_5m = fx(200.0);
    let r = detect_regime(&f, &RegimeThresholds::default());
    assert_eq!(r.regime, Regime::Illiquid);
}

#[test]
fn volatile_overrides_trending() {
    let mut f = base_features();
    f.ema20_5m = fx(120.0);
    f.ema50_5m = fx(100.0);
    f.atr14_5m = fx(10.0); // strength = 2.0
    f.ema20_1h = fx(101.0);
    f.ema50_1h = fx(100.0);
    f.rv_short = fx(0.03);
    f.rv_long = fx(0.01);
    let r = detect_regime(&f, &RegimeThresholds::default());
    assert_eq!(r.regime, Regime::Volatile);
}

#[test]
fn volatile_also_on_high_atr_ratio() {
    let mut f = base_features();
    f.atr_ratio_5m = fx(1.8);
    let r = detect_regime(&f, &RegimeThresholds::default());
    assert_eq!(r.regime, Regime::Volatile);
}

#[test]
fn trending_when_strength_and_htf_bullish() {
    let mut f = base_features();
    f.ema20_5m = fx(108.0);
    f.ema50_5m = fx(100.0);
    f.atr14_5m = fx(10.0); // strength = 0.8
    f.ema20_1h = fx(105.0);
    f.ema50_1h = fx(102.0);
    f.ema200_1h = fx(100.0);
    let r = detect_regime(&f, &RegimeThresholds::default());
    assert_eq!(r.regime, Regime::Trending);
    assert!(r.htf_bullish);
    assert!(!r.bearish_bias);
}

#[test]
fn not_trending_without_htf_bullish() {
    let mut f = base_features();
    f.ema20_5m = fx(108.0);
    f.ema50_5m = fx(100.0);
    f.atr14_5m = fx(10.0);
    f.ema20_1h = fx(100.0);
    f.ema50_1h = fx(100.0);
    f.ema200_1h = fx(100.0);
    let r = detect_regime(&f, &RegimeThresholds::default());
    assert_eq!(r.regime, Regime::Ranging);
    assert!(!r.htf_bullish);
}

#[test]
fn ranging_when_low_strength() {
    let mut f = base_features();
    f.ema20_5m = fx(101.0);
    f.ema50_5m = fx(100.0);
    f.atr14_5m = fx(10.0);
    let r = detect_regime(&f, &RegimeThresholds::default());
    assert_eq!(r.regime, Regime::Ranging);
}

#[test]
fn vol_squeeze_detected() {
    let mut f = base_features();
    f.atr_ratio_5m = fx(0.6);
    let r = detect_regime(&f, &RegimeThresholds::default());
    assert!(r.vol_squeeze);
}

#[test]
fn no_squeeze_at_normal_atr_ratio() {
    let mut f = base_features();
    f.atr_ratio_5m = fx(1.0);
    let r = detect_regime(&f, &RegimeThresholds::default());
    assert!(!r.vol_squeeze);
}

#[test]
fn bearish_bias_detected_when_ema_stack_fully_bearish() {
    let mut f = base_features();
    f.ema20_1h = fx(98.0);
    f.ema50_1h = fx(100.0);
    f.ema200_1h = fx(102.0);
    let r = detect_regime(&f, &RegimeThresholds::default());
    assert!(r.bearish_bias);
    assert!(!r.htf_bullish);
}

#[test]
fn bearish_bias_blocks_trending_classification() {
    let mut f = base_features();
    // Strong 5m trend
    f.ema20_5m = fx(108.0);
    f.ema50_5m = fx(100.0);
    f.atr14_5m = fx(10.0);
    // But HTF is bearish
    f.ema20_1h = fx(98.0);
    f.ema50_1h = fx(100.0);
    f.ema200_1h = fx(102.0);
    let r = detect_regime(&f, &RegimeThresholds::default());
    // Should NOT classify as Trending
    assert_ne!(r.regime, Regime::Trending);
    assert!(r.bearish_bias);
}

#[test]
fn the_reading_is_exact() {
    let mut f = base_features();
    f.ema20_5m = fx(101.0);
    f.rv_short = fx(0.012);
    let r = detect_regime(&f, &RegimeThresholds::default());
    assert_eq!(r.trend_strength, fx(0.1));
    assert_eq!(r.vol_ratio, fx(1.2));
    assert_eq!(r.reason, "Price is moving sideways (strength=0.10).");
    assert_eq!(r.regime.name(), "Ranging");
    f.ema20_5m = fx(106.0);
    let r = detect_regime(&f, &RegimeThresholds::default());
    assert_eq!(r.reason, "No clear trend (strength=0.60).");
}

#[test]
fn an_operator_may_move_the_thresholds() {
    let mut f = base_features();
    f.volume_z = fx(-1.0);
    let mut t = RegimeThresholds::default();
    assert_eq!(detect_regime(&f, &t).regime, Regime::Ranging);
    t.volume_z_illiquid = fx(-0.5);
    assert_eq!(detect_regime(&f, &t).regime, Regime::Illiquid);
}

#[test]
fn thresholds_are_not_rounded() {
    let t = RegimeThresholds::default();
    let mut f = base_features();
    f.ema20_1h = fx(102.0);
    f.ema50_1h = fx(101.0);
    // The distance is one step short of 0.8 average true ranges.
    f.atr14_5m = fx(3.0);
    f.ema50_5m = fx(100.0);
    f.ema20_5m = fx(100.0) + 2_399_999_999_999;
    let r = detect_regime(&f, &t);
    assert_eq!(r.regime, Regime::Ranging);
    assert_eq!(r.trend_strength, fx(0.8));
    f.ema20_5m += 1;
    assert_eq!(detect_regime(&f, &t).regime, Regime::Trending);
    // The short volatility is one step short of one and a half of the long one.
    f.rv_long = fx(2.0);
    f.rv_short = fx(3.0) - 1;
    assert_eq!(detect_regime(&f, &t).regime, Regime::Trending);
    f.rv_short += 1;
    assert_eq!(detect_regime(&f, &t).regime, Regime::Volatile);
    // Just over half an average true range is no longer sideways.
    f.rv_short = fx(1.0);
    f.ema20_5m = fx(100.0) + 1_500_000_000_001;
    assert!(detect_regime(&f, &t).reason.starts_with("No clear trend"));
    f.ema20_5m -= 1;
    assert!(detect_regime(&f, &t).reason.starts_with("Price is moving sideways"));
}
