use binance_survival_bot::money::{fixed_from_dec, notional_dec, plain_dec, plain_string, round_down_to_step_dec};
use binance_survival_bot::regime::Regime;
use binance_survival_bot::risk::{
    atr_size_multiplier, drawdown_fraction, is_throttled, risk_fraction_for_regime,
    share_after_throttle, share_at_risk, size_entry_long, RiskDecision,
};
use binance_survival_bot::sizing::{
    clamp_target_notional, ensure_affordable_sell, ensure_min_notional, max_sell_qty, notional,
    round_down_to_step, sell_qty_for_target_notional,
};

fn fx(v: f64) -> i128 {
    (v * 1e12).round() as i128
}

fn to_f(v: i128) -> f64 {
    v as f64 / 1e12
}

fn size(
    regime: Regime,
    equity: f64,
    free: f64,
    peak: f64,
    day: f64,
    session: f64,
    entry: f64,
    stop: f64,
    step: f64,
    min: f64,
    mult: f64,
    cap: f64,
) -> RiskDecision {
    size_entry_long(
        regime,
        Some(fx(equity)),
        Some(fx(free)),
        fx(peak),
        fx(day),
        fx(session),
        Some(fx(entry)),
        Some(fx(stop)),
        Some(fx(step)),
        Some(fx(min)),
        Some(fx(mult)),
        Some(fx(cap)),
    )
    .unwrap()
}

#[test]
fn blocks_when_illiquid() {
    let d = size(
        Regime::Illiquid, 1000.0, 1000.0, 1000.0, 1000.0, 0.0, 100.0, 90.0, 0.001, 5.0, 1.0, 0.0,
    );
    assert!(matches!(d, RiskDecision::Block { .. }));
}

#[test]
fn blocks_on_daily_loss_limit() {
    let d = size(
        Regime::Trending, 979.0, 979.0, 1000.0, 1000.0, 0.0, 100.0, 90.0, 0.001, 5.0, 1.0, 0.0,
    );
    // daily loss is 21 >= 20
    assert!(matches!(d, RiskDecision::Block { hibernate: true, .. }));
}

#[test]
fn cap_applied_before_affordability_check_rescues_small_account_trade() {
    // A tight stop makes the notional of the risk (~$95) exceed the free USDT (~$33.99), but
    // the cap of 20% of the equity (~$6.95) is affordable and clears the minimum.
    let d = size(
        Regime::Ranging, 34.73, 33.99, 34.73, 34.73, 0.0, 79_000.0, 78_900.0, 0.00001, 5.0, 1.0,
        6.95,
    );
    match d {
        RiskDecision::Allow { qty, notional, was_capped, .. } => {
            assert!(was_capped, "expected the cap to engage");
            assert!(to_f(qty) > 0.0);
            assert!(to_f(notional) <= 6.95 + 1e-9);
            assert!(to_f(notional) >= 5.0, "must still clear min_notional");
            assert_eq!(qty, fx(0.00008));
            assert_eq!(notional, fx(6.32));
        }
        RiskDecision::Block { reason, .. } => {
            panic!("expected Allow after capping, got Block: {reason}");
        }
    }
}

#[test]
fn drawdown_throttles_risk() {
    let d = size(
        Regime::Trending, 900.0, 900.0, 1000.0, 900.0, 0.0, 100.0, 90.0, 0.001, 5.0, 1.0, 0.0,
    );
    match d {
        RiskDecision::Allow { qty, risk_usdt, reason, .. } => {
            // risk = 0.5% * 0.25 = 0.125% => 1.125 usdt risk, qty=0.1125 -> 0.112 after rounding 0.001
            assert!(to_f(qty) > 0.0);
            assert_eq!(qty, fx(0.112));
            assert_eq!(risk_usdt, fx(1.125));
            assert_eq!(reason, "Size is safe for your pocket.");
        }
        _ => panic!("expected allow"),
    }
}

#[test]
fn atr_multiplier_no_reduction_at_normal_ratio() {
    assert!((to_f(atr_size_multiplier(Some(fx(1.0)))) - 1.0).abs() < 1e-9);
    assert!((to_f(atr_size_multiplier(Some(fx(0.8)))) - 1.0).abs() < 1e-9);
}

#[test]
fn atr_multiplier_reduces_at_high_ratio() {
    let m = to_f(atr_size_multiplier(Some(fx(2.0))));
    assert!((m - 0.5).abs() < 1e-9, "expected 0.50 floor, got {m}");
}

#[test]
fn atr_multiplier_clamped_to_floor() {
    assert!(to_f(atr_size_multiplier(Some(fx(10.0)))) >= 0.5);
}

#[test]
fn atr_multiplier_invalid_input_returns_one() {
    assert!((to_f(atr_size_multiplier(Some(fx(0.0)))) - 1.0).abs() < 1e-9);
    // What is no number is none.
    assert!((to_f(atr_size_multiplier(None)) - 1.0).abs() < 1e-9);
}

#[test]
fn blocks_on_big_drawdown() {
    let d = size(
        Regime::Trending, 840.0, 840.0, 1000.0, 1000.0, 0.0, 100.0, 90.0, 0.001, 5.0, 1.0, 0.0,
    );
    assert!(matches!(d, RiskDecision::Block { hibernate: true, .. }));
}

#[test]
fn the_size_is_the_risk_over_the_distance() {
    let d = size(
        Regime::Trending, 1000.0, 1000.0, 1000.0, 1000.0, 0.0, 100.0, 90.0, 0.001, 5.0, 1.0, 0.0,
    );
    match d {
        RiskDecision::Allow { qty, notional, risk_usdt, was_capped, .. } => {
            assert_eq!(qty, fx(0.5));
            assert_eq!(notional, fx(50.0));
            assert_eq!(risk_usdt, fx(5.0));
            assert!(!was_capped);
        }
        _ => panic!("expected allow"),
    }
}

#[test]
fn a_trade_that_cannot_be_paid_is_refused() {
    let d = size(
        Regime::Trending, 1000.0, 20.0, 1000.0, 1000.0, 0.0, 100.0, 90.0, 0.001, 5.0, 1.0, 0.0,
    );
    match d {
        RiskDecision::Block { reason, hibernate } => {
            assert!(reason.contains("USDT is available"), "{reason}");
            assert!(!hibernate);
        }
        _ => panic!("expected block"),
    }
}

#[test]
fn a_stop_above_the_entry_is_refused() {
    let d = size(
        Regime::Trending, 1000.0, 1000.0, 1000.0, 1000.0, 0.0, 100.0, 101.0, 0.001, 5.0, 1.0, 0.0,
    );
    assert!(matches!(d, RiskDecision::Block { hibernate: false, .. }));
}

#[test]
fn the_drawdown_is_a_share_of_the_peak() {
    assert_eq!(drawdown_fraction(fx(1000.0), fx(900.0)), fx(0.1));
    assert_eq!(drawdown_fraction(fx(1000.0), fx(1100.0)), 0);
    assert_eq!(drawdown_fraction(0, fx(1.0)), 0);
    assert_eq!(risk_fraction_for_regime(Regime::Trending), fx(0.005));
    assert_eq!(risk_fraction_for_regime(Regime::Illiquid), 0);
}

#[test]
fn round_down_respects_step() {
    let v = to_f(round_down_to_step(fx(0.123456), fx(0.001)));
    assert!((v - 0.123).abs() < 1e-12);
}

#[test]
fn min_notional_blocks_small_trade() {
    let e = ensure_min_notional(fx(100.0), fx(0.01), fx(5.0)).unwrap_err();
    assert!(e.message().contains("notional"));
    assert!(ensure_min_notional(fx(100.0), fx(0.05), fx(5.0)).is_ok());
}

#[test]
fn sales_stay_within_the_wallet() {
    assert_eq!(notional(fx(100.0), fx(0.5)), fx(50.0));
    assert_eq!(clamp_target_notional(fx(50.0), fx(30.0)), fx(30.0));
    assert_eq!(max_sell_qty(fx(0.01239), fx(0.001)), fx(0.012));
    assert_eq!(sell_qty_for_target_notional(fx(100.0), fx(50.0), fx(0.4), fx(0.1)), fx(0.4));
    assert!(ensure_affordable_sell(fx(0.5), fx(0.4)).is_err());
    assert!(ensure_affordable_sell(fx(0.4), fx(0.4)).is_ok());
}

#[test]
fn decimals_are_exact() {
    let step = plain_dec(fx(0.001));
    let q = round_down_to_step_dec(plain_dec(fx(0.123456)), step).unwrap();
    let n = notional_dec(plain_dec(fx(100.0)), q).unwrap();
    let scale: i128 = 10i128.pow(n.scale);
    assert_eq!(n.mantissa * 10, 123 * scale);
    assert_eq!(plain_string(fx(0.1000)), "0.1");
    assert_eq!(plain_string(fx(-2.5)), "-2.5");
}

fn decided(equity: i128, peak: i128, entry: f64, stop: f64, step: f64, cap: f64) -> Option<RiskDecision> {
    size_entry_long(
        Regime::Trending,
        Some(equity),
        Some(fx(1_000_000.0)),
        peak,
        0,
        0,
        Some(fx(entry)),
        Some(fx(stop)),
        Some(fx(step)),
        Some(fx(5.0)),
        Some(fx(1.0)),
        Some(fx(cap)),
    )
}

#[test]
fn the_drawdown_limits_are_exact() {
    // A fall of one step less than 15% does not stop the bot, though it rounds to it.
    let peak = fx(3_000.0);
    assert!(!matches!(
        decided(fx(2_550.0) + 1, peak, 100.0, 90.0, 0.001, 0.0),
        Some(RiskDecision::Block { .. })
    ));
    assert_eq!(drawdown_fraction(peak, fx(2_550.0) + 1), fx(0.15));
    match decided(fx(2_550.0), peak, 100.0, 90.0, 0.001, 0.0) {
        Some(RiskDecision::Block { reason, hibernate }) => {
            assert_eq!(reason, "Big drawdown. We sleep to survive.");
            assert!(hibernate);
        }
        other => panic!("expected a block, got {other:?}"),
    }
    assert!(is_throttled(peak, fx(2_700.0)));
    assert!(!is_throttled(peak, fx(2_700.0) + 1));
    assert!(!is_throttled(0, -1));
    let share = share_at_risk(Regime::Trending, Some(fx(1.25))).unwrap();
    assert_eq!(fixed_from_dec(share), Some(fx(0.00625)));
    let quarter = share_after_throttle(share, peak, fx(2_700.0)).unwrap();
    assert_eq!(fixed_from_dec(quarter), Some(fx(0.0015625)));
    assert_eq!(share_after_throttle(share, peak, peak), Some(share));
    let plain = share_at_risk(Regime::Ranging, Some(fx(-1.0))).unwrap();
    assert_eq!(fixed_from_dec(plain), Some(fx(0.0035)));
    assert_eq!(fixed_from_dec(share_at_risk(Regime::Volatile, None).unwrap()), Some(fx(0.0025)));
    assert_eq!(share_at_risk(Regime::Illiquid, Some(fx(2.0))).unwrap().mantissa, 0);
}

#[test]
fn the_cap_is_hard() {
    // The cap buys less than one step.
    match decided(fx(1_000.0), fx(1_000.0), 100.0, 90.0, 0.1, 9.0) {
        Some(RiskDecision::Block { reason, hibernate }) => {
            assert_eq!(reason, "Size became too small after rounding. We wait.");
            assert!(!hibernate);
        }
        other => panic!("expected a block, got {other:?}"),
    }
    match decided(fx(1_000.0), fx(1_000.0), 100.0, 90.0, 0.1, 19.0) {
        Some(RiskDecision::Allow { qty, notional, was_capped, .. }) => {
            assert_eq!((qty, notional), (fx(0.1), fx(10.0)));
            assert!(was_capped);
        }
        other => panic!("expected a size, got {other:?}"),
    }
}

#[test]
fn nothing_is_never_allowed() {
    // The quantity is beyond every fixed-point number.
    let d = size_entry_long(
        Regime::Trending,
        Some(fx(1_000_000_000.0)),
        Some(fx(1_000_000_000.0)),
        0,
        0,
        0,
        Some(2),
        Some(1),
        Some(1),
        Some(0),
        Some(fx(1.0)),
        None,
    );
    assert!(!matches!(d, Some(RiskDecision::Allow { .. })), "{d:?}");
}

#[test]
fn the_minimum_is_not_rounded() {
    // The order is worth 4.9999999999985: one step and a half short.
    let (price, qty) = (fx(0.5), 9_999_999_999_997);
    assert!(ensure_min_notional(price, qty, fx(5.0)).is_err());
    assert!(ensure_min_notional(price, qty + 1, fx(5.0)).is_ok());
    assert!(ensure_min_notional(price, qty, i128::MAX).is_err());
    assert!(ensure_min_notional(price, qty, i128::MIN).is_ok());
}

#[test]
fn the_risk_is_not_rounded_on_the_way() {
    let d = size_entry_long(
        Regime::Trending,
        Some(fx(1_000_000.0)),
        Some(fx(1_000_000.0)),
        fx(1_000_000.0),
        fx(1_000_000.0),
        0,
        Some(fx(100.0)),
        Some(fx(90.0)),
        Some(fx(0.001)),
        Some(fx(5.0)),
        Some(333_333_333_333),
        None,
    );
    match d {
        Some(RiskDecision::Allow { qty, notional, risk_usdt, .. }) => {
            assert_eq!(risk_usdt, 1_666_666_666_665_000);
            assert_eq!(qty, fx(166.666));
            assert_eq!(notional, 100 * qty);
            assert_eq!(qty % fx(0.001), 0);
            assert!(qty * 10 <= risk_usdt);
        }
        other => panic!("expected a size, got {other:?}"),
    }
    // A quarter of it 10% under the peak.
    let d = size_entry_long(
        Regime::Trending,
        Some(fx(900_000.0)),
        Some(fx(1_000_000.0)),
        fx(1_000_000.0),
        0,
        0,
        Some(fx(100.0)),
        Some(fx(90.0)),
        Some(fx(0.001)),
        Some(fx(5.0)),
        Some(333_333_333_333),
        None,
    );
    match d {
        Some(RiskDecision::Allow { risk_usdt, .. }) => assert_eq!(risk_usdt, 374_999_999_999_625),
        other => panic!("expected a size, got {other:?}"),
    }
}

#[test]
fn nothing_is_bought_for_nothing() {
    assert!(!matches!(
        decided(fx(1_000.0), fx(1_000.0), -1.0, -11.0, 0.001, 0.0),
        Some(RiskDecision::Allow { .. })
    ));
}
