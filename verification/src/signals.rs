//! Entry signals: four strategies, and the dispatcher that ranks them.
use crate::features::Features;
use crate::fixed::{
    lemma_round_div_error,
    abs_fixed, abs_of, bounded, clamp_fixed, clamped, div_fixed, div_round, lemma_round_div_bounds,
    lemma_round_div_exact, lemma_round_div_monotone, max_fixed, max_of, mul_fixed, product, product_at_least,
    quotient, round_div, ONE,
};
use crate::regime::{regime_text, Regime};
use crate::text::{fixed_string, fixed_text};
use vstd::prelude::*;

verus! {

/// What a signal asks for.
#[derive(Clone, Copy, Debug, PartialEq, Eq, Structural)]
pub enum Action {
    EnterLong,
    ExitLong,
    Hold,
}

/// The outcome of a strategy.
#[derive(Clone, Debug)]
pub struct Signal {
    pub action: Action,
    pub confidence: i128,
    /// The confidence after the context multiplier. Zero where the signal holds.
    pub score: i128,
    /// The strategy that the dispatcher chose. Empty where the signal holds.
    pub strategy: String,
    pub reason: String,
    pub stop_price: Option<i128>,
}

/// The content of a [`Signal`].
pub struct SignalView {
    pub action: Action,
    pub confidence: int,
    pub score: int,
    pub strategy: Seq<char>,
    pub reason: Seq<char>,
    pub stop_price: Option<int>,
}

impl View for Signal {
    type V = SignalView;

    open spec fn view(&self) -> SignalView {
        SignalView {
            action: self.action,
            confidence: self.confidence as int,
            score: self.score as int,
            strategy: self.strategy@,
            reason: self.reason@,
            stop_price: match self.stop_price {
                Some(p) => Some(p as int),
                None => None,
            },
        }
    }
}

/// The settings of the strategies.
#[derive(Clone, Copy, Debug, PartialEq, Eq, Structural)]
pub struct SignalSettings {
    /// The score that an entry has to reach.
    pub min_entry_score: i128,
    /// Whether a trend breakout needs strong volume, and how strong.
    pub breakout_require_volume: bool,
    pub breakout_volume_z_min: i128,
    pub range_bb_width_max: i128,
    pub range_entry_zone_pct: i128,
    pub range_rsi_min: i128,
    pub range_rsi_max: i128,
    /// Whether a mean-reversion entry needs an upward velocity, and how large.
    pub range_require_velocity: bool,
    pub range_velocity_min: i128,
    pub momentum_velocity_min: i128,
    pub momentum_rsi_min: i128,
    pub momentum_rsi_max: i128,
}

impl SignalSettings {
    /// Every setting is within the range of the arithmetic.
    pub open spec fn ok(self) -> bool {
        &&& bounded(self.min_entry_score as int)
        &&& bounded(self.breakout_volume_z_min as int)
        &&& bounded(self.range_bb_width_max as int)
        &&& bounded(ONE + self.range_entry_zone_pct)
        &&& bounded(self.range_rsi_min as int)
        &&& bounded(self.range_rsi_max as int)
        &&& bounded(self.range_velocity_min as int)
        &&& bounded(self.momentum_velocity_min as int)
        &&& bounded(self.momentum_rsi_min as int)
        &&& bounded(self.momentum_rsi_max as int)
    }
}

impl Default for SignalSettings {
    fn default() -> (s: SignalSettings)
        ensures
            s.ok(),
            s == (SignalSettings {
                min_entry_score: 250_000_000_000,
                breakout_require_volume: false,
                breakout_volume_z_min: 2_000_000_000_000,
                range_bb_width_max: 60_000_000_000,
                range_entry_zone_pct: 5_000_000_000,
                range_rsi_min: 25_000_000_000_000,
                range_rsi_max: 45_000_000_000_000,
                range_require_velocity: false,
                range_velocity_min: 0,
                momentum_velocity_min: 1_000_000_000,
                momentum_rsi_min: 55_000_000_000_000,
                momentum_rsi_max: 80_000_000_000_000,
            }),
    {
        SignalSettings {
            min_entry_score: 250_000_000_000,
            breakout_require_volume: false,
            breakout_volume_z_min: 2_000_000_000_000,
            range_bb_width_max: 60_000_000_000,
            range_entry_zone_pct: 5_000_000_000,
            range_rsi_min: 25_000_000_000_000,
            range_rsi_max: 45_000_000_000_000,
            range_require_velocity: false,
            range_velocity_min: 0,
            momentum_velocity_min: 1_000_000_000,
            momentum_rsi_min: 55_000_000_000_000,
            momentum_rsi_max: 80_000_000_000_000,
        }
    }
}

/// A signal that holds.
pub open spec fn held(reason: Seq<char>) -> SignalView {
    SignalView {
        action: Action::Hold,
        confidence: 0,
        score: 0,
        strategy: Seq::empty(),
        reason,
        stop_price: None,
    }
}

/// A signal to enter, before the dispatcher has ranked it.
pub open spec fn entered(confidence: int, reason: Seq<char>, stop: int) -> SignalView {
    SignalView {
        action: Action::EnterLong,
        confidence,
        score: confidence,
        strategy: Seq::empty(),
        reason,
        stop_price: Some(stop),
    }
}

fn hold(reason: String) -> (s: Signal)
    ensures
        s@ == held(reason@),
{
    Signal {
        action: Action::Hold,
        confidence: 0,
        score: 0,
        strategy: String::new(),
        reason,
        stop_price: None,
    }
}

fn hold_because(reason: &str) -> (s: Signal)
    ensures
        s@ == held(reason@),
{
    hold(String::from_str(reason))
}

fn enter(confidence: i128, reason: String, stop: i128) -> (s: Signal)
    ensures
        s@ == entered(confidence as int, reason@, stop as int),
{
    Signal {
        action: Action::EnterLong,
        confidence,
        score: confidence,
        strategy: String::new(),
        reason,
        stop_price: Some(stop),
    }
}

/// How far the close is over the channel, in average true ranges.
pub open spec fn breakout_distance(f: Features) -> int {
    quotient(f.last_close_5m - f.donchian_high20_5m, max_of(f.atr14_5m as int, 1))
}

/// The trend-breakout strategy: in a trend, a close over the Donchian channel
/// with some volume behind it. While volatility is compressed it defers to the
/// squeeze breakout.
pub open spec fn trend_breakout(
    regime: Regime,
    f: Features,
    current_price: int,
    vol_ratio: int,
    vol_squeeze: bool,
    set: SignalSettings,
) -> SignalView {
    if regime != Regime::Trending {
        held("Market is "@ + regime_text(regime) + ". Trend Breakout requires Trending."@)
    } else if vol_squeeze {
        held(
            "Vol squeeze active — deferring to squeeze-breakout strategy for better risk control."@,
        )
    } else if f.last_close_5m <= f.donchian_high20_5m {
        held(
            "Price "@ + fixed_text(f.last_close_5m as int, 2) + " still below Donchian high "@
                + fixed_text(f.donchian_high20_5m as int, 2) + ". No breakout."@,
        )
    } else if f.volume_z <= 0 && vol_ratio <= 1_100_000_000_000 {
        held(
            "Breakout attempt weak (vol_z="@ + fixed_text(f.volume_z as int, 2) + ", vol_ratio="@
                + fixed_text(vol_ratio, 2) + "). Waiting for conviction."@,
        )
    } else if set.breakout_require_volume && f.volume_z < set.breakout_volume_z_min {
        held(
            "Strong volume confirmation required: volume_z "@ + fixed_text(f.volume_z as int, 2)
                + " < "@ + fixed_text(set.breakout_volume_z_min as int, 2) + "."@,
        )
    } else {
        entered(
            round_div(clamped(breakout_distance(f), 0, 2 * ONE), 2),
            "Trend breakout confirmed. HTF bullish stack intact."@,
            current_price - round_div(18 * max_of(f.atr14_5m as int, 1), 10),
        )
    }
}

/// Classic Donchian-channel breakout. See [`trend_breakout`].
pub fn trend_breakout_long_only(
    regime: Regime,
    f: &Features,
    current_price: i128,
    vol_ratio: i128,
    vol_squeeze: bool,
    set: &SignalSettings,
) -> (s: Signal)
    requires
        f.ok(),
        bounded(current_price as int),
    ensures
        s@ == trend_breakout(regime, *f, current_price as int, vol_ratio as int, vol_squeeze, *set),
        0 <= s.confidence <= ONE,
{
    if regime != Regime::Trending {
        let mut m: String = String::from_str("Market is ");
        m.append(regime.name());
        m.append(". Trend Breakout requires Trending.");
        return hold(m);
    }
    if vol_squeeze {
        return hold_because(
            "Vol squeeze active — deferring to squeeze-breakout strategy for better risk control.",
        );
    }
    if f.last_close_5m <= f.donchian_high20_5m {
        let mut m: String = String::from_str("Price ");
        m.append(fixed_string(f.last_close_5m, 2).as_str());
        m.append(" still below Donchian high ");
        m.append(fixed_string(f.donchian_high20_5m, 2).as_str());
        m.append(". No breakout.");
        return hold(m);
    }
    let confirmed: bool = f.volume_z > 0 || vol_ratio > 1_100_000_000_000;
    if !confirmed {
        let mut m: String = String::from_str("Breakout attempt weak (vol_z=");
        m.append(fixed_string(f.volume_z, 2).as_str());
        m.append(", vol_ratio=");
        m.append(fixed_string(vol_ratio, 2).as_str());
        m.append("). Waiting for conviction.");
        return hold(m);
    }
    if set.breakout_require_volume && f.volume_z < set.breakout_volume_z_min {
        let mut m: String = String::from_str("Strong volume confirmation required: volume_z ");
        m.append(fixed_string(f.volume_z, 2).as_str());
        m.append(" < ");
        m.append(fixed_string(set.breakout_volume_z_min, 2).as_str());
        m.append(".");
        return hold(m);
    }
    let atr: i128 = max_fixed(f.atr14_5m, 1);
    proof {
        lemma_round_div_bounds(18 * atr, 10, 18 * atr);
    }
    let stop: i128 = current_price - div_round(18 * atr, 10);
    let raw: i128 = div_fixed(f.last_close_5m - f.donchian_high20_5m, atr);
    let inside: i128 = clamp_fixed(raw, 0, 2 * ONE);
    proof {
        lemma_round_div_monotone(0, inside as int, 2);
        lemma_round_div_monotone(inside as int, ONE * 2, 2);
        lemma_round_div_exact(0, 2);
        lemma_round_div_exact(ONE as int, 2);
    }
    enter(
        div_round(inside, 2),
        String::from_str("Trend breakout confirmed. HTF bullish stack intact."),
        stop,
    )
}

/// The squeeze-breakout strategy: after compressed volatility, a close over the
/// Donchian channel, unless the market is hostile or the volume is very weak.
pub open spec fn squeeze_breakout(
    regime: Regime,
    f: Features,
    current_price: int,
    vol_squeeze: bool,
) -> SignalView {
    if !vol_squeeze {
        held("No volatility squeeze detected. Skipping squeeze-breakout."@)
    } else if regime == Regime::Volatile || regime == Regime::Illiquid {
        held("Squeeze breakout not suitable in "@ + regime_text(regime) + " regime."@)
    } else if f.last_close_5m <= f.donchian_high20_5m {
        held(
            "Price "@ + fixed_text(f.last_close_5m as int, 2) + " has not cleared Donchian high "@
                + fixed_text(f.donchian_high20_5m as int, 2) + "."@,
        )
    } else if f.volume_z < -500_000_000_000 {
        held(
            "Squeeze breakout has weak volume (z="@ + fixed_text(f.volume_z as int, 2)
                + "). Waiting for conviction."@,
        )
    } else {
        entered(
            round_div(7 * clamped(breakout_distance(f), 0, 1_500_000_000_000), 15)
                + 300_000_000_000,
            "Volatility squeeze breakout: BB_width="@ + fixed_text(f.bb_width_5m as int, 4)
                + ", above Donchian high. Early entry."@,
            current_price - round_div(15 * max_of(f.atr14_5m as int, 1), 10),
        )
    }
}

/// Activates only after a period of compression, when the price breaks above the
/// prior Donchian high. See [`squeeze_breakout`].
pub fn volatility_squeeze_breakout_signal(
    regime: Regime,
    f: &Features,
    current_price: i128,
    _vol_ratio: i128,
    vol_squeeze: bool,
) -> (s: Signal)
    requires
        f.ok(),
        bounded(current_price as int),
    ensures
        s@ == squeeze_breakout(regime, *f, current_price as int, vol_squeeze),
        0 <= s.confidence <= ONE,
{
    if !vol_squeeze {
        return hold_because("No volatility squeeze detected. Skipping squeeze-breakout.");
    }
    if regime == Regime::Volatile || regime == Regime::Illiquid {
        let mut m: String = String::from_str("Squeeze breakout not suitable in ");
        m.append(regime.name());
        m.append(" regime.");
        return hold(m);
    }
    if f.last_close_5m <= f.donchian_high20_5m {
        let mut m: String = String::from_str("Price ");
        m.append(fixed_string(f.last_close_5m, 2).as_str());
        m.append(" has not cleared Donchian high ");
        m.append(fixed_string(f.donchian_high20_5m, 2).as_str());
        m.append(".");
        return hold(m);
    }
    if f.volume_z < -500_000_000_000 {
        let mut m: String = String::from_str("Squeeze breakout has weak volume (z=");
        m.append(fixed_string(f.volume_z, 2).as_str());
        m.append("). Waiting for conviction.");
        return hold(m);
    }
    let atr: i128 = max_fixed(f.atr14_5m, 1);
    proof {
        lemma_round_div_bounds(15 * atr, 10, 15 * atr);
    }
    let stop: i128 = current_price - div_round(15 * atr, 10);
    let raw: i128 = div_fixed(f.last_close_5m - f.donchian_high20_5m, atr);
    let inside: i128 = clamp_fixed(raw, 0, 1_500_000_000_000);
    proof {
        lemma_round_div_monotone(0, 7 * inside, 15);
        lemma_round_div_monotone(7 * inside, 10_500_000_000_000, 15);
        lemma_round_div_exact(0, 15);
        lemma_round_div_exact(700_000_000_000, 15);
    }
    let mut m: String = String::from_str("Volatility squeeze breakout: BB_width=");
    m.append(fixed_string(f.bb_width_5m, 4).as_str());
    m.append(", above Donchian high. Early entry.");
    enter(div_round(7 * inside, 15) + 300_000_000_000, m, stop)
}

/// Whether a mean-reversion entry is refused, and why.
pub open spec fn mean_reversion_refusal(
    f: Features,
    current_price: int,
    set: SignalSettings,
) -> Option<Seq<char>> {
    if f.bb_lower_5m <= 0 || f.bb_width_5m <= 0 {
        Some("BB bands not available for mean-reversion check."@)
    } else if f.bb_width_5m > set.range_bb_width_max {
        Some(
            "BB width "@ + fixed_text(f.bb_width_5m as int, 4) + " > "@ + fixed_text(
                set.range_bb_width_max as int,
                4,
            ) + " max. Market too volatile for mean reversion."@,
        )
    } else if current_price * ONE > f.bb_lower_5m * (ONE + set.range_entry_zone_pct) {
        Some(
            "Price "@ + fixed_text(current_price, 2) + " not near lower BB "@ + fixed_text(
                f.bb_lower_5m as int,
                2,
            ) + ". Mean reversion not triggered."@,
        )
    } else if f.rsi14_5m < set.range_rsi_min || f.rsi14_5m > set.range_rsi_max {
        Some(
            "RSI "@ + fixed_text(f.rsi14_5m as int, 1) + " not in range-oversold zone ("@
                + fixed_text(set.range_rsi_min as int, 1) + ".."@ + fixed_text(
                set.range_rsi_max as int,
                1,
            ) + ")."@,
        )
    } else if current_price <= f.donchian_low20_5m {
        Some(
            "Price "@ + fixed_text(current_price, 2) + " ≤ Donchian low "@ + fixed_text(
                f.donchian_low20_5m as int,
                2,
            ) + ". Possible range breakdown, skip."@,
        )
    } else if set.range_require_velocity && f.velocity_1m <= set.range_velocity_min {
        Some(
            "Velocity confirmation required: velocity_1m "@ + fixed_text(f.velocity_1m as int, 6)
                + " <= "@ + fixed_text(set.range_velocity_min as int, 6)
                + ". Price hasn't turned yet."@,
        )
    } else if mean_reversion_stop(f) >= current_price {
        Some("Stop would be at or above entry. Geometry invalid, skip."@)
    } else {
        None
    }
}

/// The stop of a mean-reversion entry: half an average true range under the
/// channel.
pub open spec fn mean_reversion_stop(f: Features) -> int {
    f.donchian_low20_5m - round_div(max_of(f.atr14_5m as int, 1), 2)
}

/// The confidence of a mean-reversion entry: up to 0.35 for the distance below
/// the lower band, up to 0.3 for the strength index, 0.15 for nearby support and
/// 0.1 for drying volume.
pub open spec fn mean_reversion_confidence(
    f: Features,
    current_price: int,
    set: SignalSettings,
) -> int {
    let atr = max_of(f.atr14_5m as int, 1);
    let overshoot = quotient(max_of(f.bb_lower_5m - current_price, 0), atr);
    let a = clamped(round_div(6 * overshoot, 10), 0, 350_000_000_000);
    let position = quotient(
        set.range_rsi_max - f.rsi14_5m,
        max_of(set.range_rsi_max - set.range_rsi_min, 1),
    );
    let b = clamped(round_div(3 * position, 10), 0, 300_000_000_000);
    let c: int = if 2 * max_of(current_price - f.donchian_low20_5m, 0) < 3 * atr {
        150_000_000_000
    } else {
        0
    };
    let d: int = if f.volume_z < 0 {
        100_000_000_000
    } else {
        0
    };
    a + b + c + d
}

/// The mean-reversion strategy: an oversold dip near the lower Bollinger band
/// that still stands above the Donchian low.
pub open spec fn mean_reversion(f: Features, current_price: int, set: SignalSettings) -> SignalView {
    match mean_reversion_refusal(f, current_price, set) {
        Some(reason) => held(reason),
        None => entered(
            mean_reversion_confidence(f, current_price, set),
            "Range mean reversion: price near lower BB ("@ + fixed_text(f.bb_lower_5m as int, 2)
                + "), RSI "@ + fixed_text(f.rsi14_5m as int, 1) + ", support "@ + fixed_text(
                quotient(
                    max_of(current_price - f.donchian_low20_5m, 0),
                    max_of(f.atr14_5m as int, 1),
                ),
                2,
            ) + " ATR away. Target: BB mid "@ + fixed_text(f.bb_mid20_5m as int, 2) + "."@,
            mean_reversion_stop(f),
        ),
    }
}

fn refuse_mean_reversion(f: &Features, current_price: i128, set: &SignalSettings) -> (r: Option<
    String,
>)
    requires
        f.ok(),
        set.ok(),
        bounded(current_price as int),
    ensures
        match r {
            Some(reason) => mean_reversion_refusal(*f, current_price as int, *set) == Some(reason@),
            None => mean_reversion_refusal(*f, current_price as int, *set) is None,
        },
{
    if f.bb_lower_5m <= 0 || f.bb_width_5m <= 0 {
        return Some(String::from_str("BB bands not available for mean-reversion check."));
    }
    if f.bb_width_5m > set.range_bb_width_max {
        let mut m: String = String::from_str("BB width ");
        m.append(fixed_string(f.bb_width_5m, 4).as_str());
        m.append(" > ");
        m.append(fixed_string(set.range_bb_width_max, 4).as_str());
        m.append(" max. Market too volatile for mean reversion.");
        return Some(m);
    }
    if !product_at_least(f.bb_lower_5m, ONE + set.range_entry_zone_pct, current_price) {
        let mut m: String = String::from_str("Price ");
        m.append(fixed_string(current_price, 2).as_str());
        m.append(" not near lower BB ");
        m.append(fixed_string(f.bb_lower_5m, 2).as_str());
        m.append(". Mean reversion not triggered.");
        return Some(m);
    }
    if f.rsi14_5m < set.range_rsi_min || f.rsi14_5m > set.range_rsi_max {
        let mut m: String = String::from_str("RSI ");
        m.append(fixed_string(f.rsi14_5m, 1).as_str());
        m.append(" not in range-oversold zone (");
        m.append(fixed_string(set.range_rsi_min, 1).as_str());
        m.append("..");
        m.append(fixed_string(set.range_rsi_max, 1).as_str());
        m.append(").");
        return Some(m);
    }
    if current_price <= f.donchian_low20_5m {
        let mut m: String = String::from_str("Price ");
        m.append(fixed_string(current_price, 2).as_str());
        m.append(" ≤ Donchian low ");
        m.append(fixed_string(f.donchian_low20_5m, 2).as_str());
        m.append(". Possible range breakdown, skip.");
        return Some(m);
    }
    if set.range_require_velocity && f.velocity_1m <= set.range_velocity_min {
        let mut m: String = String::from_str("Velocity confirmation required: velocity_1m ");
        m.append(fixed_string(f.velocity_1m, 6).as_str());
        m.append(" <= ");
        m.append(fixed_string(set.range_velocity_min, 6).as_str());
        m.append(". Price hasn't turned yet.");
        return Some(m);
    }
    let atr: i128 = max_fixed(f.atr14_5m, 1);
    proof {
        lemma_round_div_bounds(atr as int, 2, atr as int);
    }
    let stop: i128 = f.donchian_low20_5m - div_round(atr, 2);
    if stop >= current_price {
        return Some(String::from_str("Stop would be at or above entry. Geometry invalid, skip."));
    }
    None
}

fn score_mean_reversion(f: &Features, current_price: i128, set: &SignalSettings) -> (c: i128)
    requires
        f.ok(),
        set.ok(),
        bounded(current_price as int),
        set.range_rsi_min <= f.rsi14_5m <= set.range_rsi_max,
    ensures
        c == mean_reversion_confidence(*f, current_price as int, *set),
        0 <= c <= 900_000_000_000,
{
    let atr: i128 = max_fixed(f.atr14_5m, 1);
    let overshoot: i128 = div_fixed(max_fixed(f.bb_lower_5m - current_price, 0), atr);
    let mut a: i128 = 350_000_000_000;
    if overshoot < ONE {
        proof {
            let over = max_of(f.bb_lower_5m - current_price, 0);
            lemma_round_div_monotone(0, over * ONE, atr as int);
            lemma_round_div_exact(0, atr as int);
        }
        a = clamp_fixed(div_round(6 * overshoot, 10), 0, 350_000_000_000);
    } else {
        proof {
            lemma_round_div_monotone(6_000_000_000_000, 6 * overshoot, 10);
            lemma_round_div_exact(600_000_000_000, 10);
        }
    }
    let range: i128 = max_fixed(set.range_rsi_max - set.range_rsi_min, 1);
    let position: i128 = div_fixed(set.range_rsi_max - f.rsi14_5m, range);
    proof {
        let left = set.range_rsi_max - f.rsi14_5m;
        lemma_round_div_monotone(0, left * ONE, range as int);
        lemma_round_div_exact(0, range as int);
        assert(left * ONE <= ONE * range);
        lemma_round_div_monotone(left * ONE, ONE * range, range as int);
        lemma_round_div_exact(ONE as int, range as int);
    }
    let b: i128 = clamp_fixed(div_round(3 * position, 10), 0, 300_000_000_000);
    let distance: i128 = max_fixed(current_price - f.donchian_low20_5m, 0);
    let c: i128 = if 2 * distance < 3 * atr {
        150_000_000_000
    } else {
        0
    };
    let d: i128 = if f.volume_z < 0 {
        100_000_000_000
    } else {
        0
    };
    a + b + c + d
}

/// Buys oversold dips near the lower Bollinger band. See [`mean_reversion`]. The
/// dispatcher does not use this strategy.
pub fn mean_reversion_range_signal(f: &Features, current_price: i128, set: &SignalSettings) -> (s:
    Signal)
    requires
        f.ok(),
        set.ok(),
        bounded(current_price as int),
    ensures
        s@ == mean_reversion(*f, current_price as int, *set),
        0 <= s.confidence <= ONE,
{
    if let Some(reason) = refuse_mean_reversion(f, current_price, set) {
        return hold(reason);
    }
    let atr: i128 = max_fixed(f.atr14_5m, 1);
    proof {
        lemma_round_div_bounds(atr as int, 2, atr as int);
    }
    let stop: i128 = f.donchian_low20_5m - div_round(atr, 2);
    let distance: i128 = max_fixed(current_price - f.donchian_low20_5m, 0);
    let mut m: String = String::from_str("Range mean reversion: price near lower BB (");
    m.append(fixed_string(f.bb_lower_5m, 2).as_str());
    m.append("), RSI ");
    m.append(fixed_string(f.rsi14_5m, 1).as_str());
    m.append(", support ");
    m.append(fixed_string(div_fixed(distance, atr), 2).as_str());
    m.append(" ATR away. Target: BB mid ");
    m.append(fixed_string(f.bb_mid20_5m, 2).as_str());
    m.append(".");
    enter(score_mean_reversion(f, current_price, set), m, stop)
}

/// Whether a momentum entry is refused, and why.
pub open spec fn momentum_refusal(f: Features, current_price: int, set: SignalSettings) -> Option<
    Seq<char>,
> {
    if f.velocity_1m < set.momentum_velocity_min {
        Some(
            "Insufficient upward velocity (1m="@ + fixed_text(f.velocity_1m as int, 6) + " < "@
                + fixed_text(set.momentum_velocity_min as int, 6) + ")."@,
        )
    } else if f.velocity_5m <= -1_000_000_000 {
        Some(
            "5m trend falling (velocity_5m="@ + fixed_text(f.velocity_5m as int, 6)
                + "). Momentum against entry."@,
        )
    } else if f.velocity_1m <= f.velocity_5m {
        Some(
            "Momentum decelerating (1m="@ + fixed_text(f.velocity_1m as int, 6) + " ≤ 5m="@
                + fixed_text(f.velocity_5m as int, 6) + "). Waiting for acceleration."@,
        )
    } else if f.rsi14_1m < set.momentum_rsi_min || f.rsi14_1m > set.momentum_rsi_max {
        Some(
            "RSI "@ + fixed_text(f.rsi14_1m as int, 1) + " not in momentum zone ("@ + fixed_text(
                set.momentum_rsi_min as int,
                1,
            ) + ".."@ + fixed_text(set.momentum_rsi_max as int, 1) + ")."@,
        )
    } else if current_price <= f.ema20_1m {
        Some(
            "Price "@ + fixed_text(current_price, 2) + " ≤ EMA20_1m "@ + fixed_text(
                f.ema20_1m as int,
                2,
            ) + ". Below short-term trend."@,
        )
    } else {
        None
    }
}

/// The confidence of a momentum entry: half of it is the velocity, 0.3 the
/// acceleration against five minutes, 0.2 the volume.
pub open spec fn momentum_confidence(f: Features) -> int {
    let vel = clamped(1000 * f.velocity_1m, 0, ONE as int);
    let accel = if abs_of(f.velocity_5m as int) > 1 {
        clamped(
            quotient(f.velocity_1m as int, abs_of(f.velocity_5m as int)) - ONE,
            0,
            ONE as int,
        )
    } else {
        ONE as int
    };
    let vol = round_div(clamped(f.volume_z as int, 0, 3 * ONE), 3);
    round_div(5 * vel + 3 * accel + 2 * vol, 10)
}

/// The momentum strategy: an upward velocity that grows.
pub open spec fn momentum(f: Features, current_price: int, set: SignalSettings) -> SignalView {
    match momentum_refusal(f, current_price, set) {
        Some(reason) => held(reason),
        None => entered(
            momentum_confidence(f),
            "Momentum accelerating: 1m_vel="@ + fixed_text(f.velocity_1m as int, 6) + ", 5m_vel="@
                + fixed_text(f.velocity_5m as int, 6) + ", RSI="@ + fixed_text(
                f.rsi14_1m as int,
                1,
            ) + "."@,
            current_price - round_div(15 * max_of(f.atr14_1m as int, 1), 10),
        ),
    }
}

fn refuse_momentum(f: &Features, current_price: i128, set: &SignalSettings) -> (r: Option<String>)
    ensures
        match r {
            Some(reason) => momentum_refusal(*f, current_price as int, *set) == Some(reason@),
            None => momentum_refusal(*f, current_price as int, *set) is None,
        },
{
    if f.velocity_1m < set.momentum_velocity_min {
        let mut m: String = String::from_str("Insufficient upward velocity (1m=");
        m.append(fixed_string(f.velocity_1m, 6).as_str());
        m.append(" < ");
        m.append(fixed_string(set.momentum_velocity_min, 6).as_str());
        m.append(").");
        return Some(m);
    }
    if f.velocity_5m <= -1_000_000_000 {
        let mut m: String = String::from_str("5m trend falling (velocity_5m=");
        m.append(fixed_string(f.velocity_5m, 6).as_str());
        m.append("). Momentum against entry.");
        return Some(m);
    }
    if f.velocity_1m <= f.velocity_5m {
        let mut m: String = String::from_str("Momentum decelerating (1m=");
        m.append(fixed_string(f.velocity_1m, 6).as_str());
        m.append(" ≤ 5m=");
        m.append(fixed_string(f.velocity_5m, 6).as_str());
        m.append("). Waiting for acceleration.");
        return Some(m);
    }
    if f.rsi14_1m < set.momentum_rsi_min || f.rsi14_1m > set.momentum_rsi_max {
        let mut m: String = String::from_str("RSI ");
        m.append(fixed_string(f.rsi14_1m, 1).as_str());
        m.append(" not in momentum zone (");
        m.append(fixed_string(set.momentum_rsi_min, 1).as_str());
        m.append("..");
        m.append(fixed_string(set.momentum_rsi_max, 1).as_str());
        m.append(").");
        return Some(m);
    }
    if current_price <= f.ema20_1m {
        let mut m: String = String::from_str("Price ");
        m.append(fixed_string(current_price, 2).as_str());
        m.append(" ≤ EMA20_1m ");
        m.append(fixed_string(f.ema20_1m, 2).as_str());
        m.append(". Below short-term trend.");
        return Some(m);
    }
    None
}

/// Momentum enters where the minute is fast enough and outpaces the five minutes, these
/// do not fall, and the strength index and the price agree; else it holds, without a
/// stop.
pub proof fn law_momentum_needs_acceleration(f: Features, current_price: int, set: SignalSettings)
    ensures
        momentum(f, current_price, set).action == Action::EnterLong <==> {
            &&& f.velocity_1m >= set.momentum_velocity_min
            &&& f.velocity_5m > -1_000_000_000
            &&& f.velocity_1m > f.velocity_5m
            &&& set.momentum_rsi_min <= f.rsi14_1m <= set.momentum_rsi_max
            &&& current_price > f.ema20_1m
        },
        momentum(f, current_price, set).action == Action::EnterLong ==> momentum(
            f,
            current_price,
            set,
        ).stop_price == Some(current_price - round_div(15 * max_of(f.atr14_1m as int, 1), 10)),
        momentum(f, current_price, set).action != Action::EnterLong ==> {
            &&& momentum(f, current_price, set).action == Action::Hold
            &&& momentum(f, current_price, set).stop_price is None
        },
{
}

/// Detects acceleration in upward momentum. See [`momentum`].
pub fn dynamic_momentum_signal(f: &Features, current_price: i128, set: &SignalSettings) -> (s: Signal)
    requires
        f.ok(),
        bounded(current_price as int),
    ensures
        s@ == momentum(*f, current_price as int, *set),
        0 <= s.confidence <= ONE,
{
    if let Some(reason) = refuse_momentum(f, current_price, set) {
        return hold(reason);
    }
    let atr: i128 = max_fixed(f.atr14_1m, 1);
    proof {
        lemma_round_div_bounds(15 * atr, 10, 15 * atr);
    }
    let stop: i128 = current_price - div_round(15 * atr, 10);
    let vel: i128 = clamp_fixed(1000 * f.velocity_1m, 0, ONE);
    let size: i128 = abs_fixed(f.velocity_5m);
    let accel: i128 = if size > 1 {
        clamp_fixed(div_fixed(f.velocity_1m, size) - ONE, 0, ONE)
    } else {
        ONE
    };
    let vol_in: i128 = clamp_fixed(f.volume_z, 0, 3 * ONE);
    proof {
        lemma_round_div_monotone(0, vol_in as int, 3);
        lemma_round_div_monotone(vol_in as int, ONE * 3, 3);
        lemma_round_div_exact(0, 3);
        lemma_round_div_exact(ONE as int, 3);
    }
    let vol: i128 = div_round(vol_in, 3);
    let total: i128 = 5 * vel + 3 * accel + 2 * vol;
    proof {
        lemma_round_div_monotone(0, total as int, 10);
        lemma_round_div_monotone(total as int, ONE * 10, 10);
        lemma_round_div_exact(0, 10);
        lemma_round_div_exact(ONE as int, 10);
    }
    let mut m: String = String::from_str("Momentum accelerating: 1m_vel=");
    m.append(fixed_string(f.velocity_1m, 6).as_str());
    m.append(", 5m_vel=");
    m.append(fixed_string(f.velocity_5m, 6).as_str());
    m.append(", RSI=");
    m.append(fixed_string(f.rsi14_1m, 1).as_str());
    m.append(".");
    enter(div_round(total, 10), m, stop)
}

/// Another name of [`dynamic_momentum_signal`].
pub fn intraday_momentum_signal(f: &Features, current_price: i128, set: &SignalSettings) -> (s: Signal)
    requires
        f.ok(),
        bounded(current_price as int),
    ensures
        s@ == momentum(*f, current_price as int, *set),
{
    dynamic_momentum_signal(f, current_price, set)
}

/// The weight of the surroundings of a squeeze breakout.
pub open spec fn squeeze_context(f: Features, htf_bullish: bool) -> int {
    ONE + (if htf_bullish {
        200_000_000_000int
    } else {
        0
    }) + (if f.volume_z > ONE {
        100_000_000_000int
    } else {
        0
    })
}

/// The weight of the surroundings of a trend breakout.
pub open spec fn trend_context(f: Features, htf_bullish: bool) -> int {
    ONE + (if htf_bullish {
        150_000_000_000int
    } else {
        0
    }) + (if f.volume_z > 500_000_000_000 {
        100_000_000_000int
    } else {
        0
    })
}

/// The weight of the surroundings of a mean-reversion entry.
pub open spec fn range_context(f: Features, htf_bullish: bool) -> int {
    ONE + (if htf_bullish {
        200_000_000_000int
    } else {
        0
    }) + (if f.volume_z < 0 {
        100_000_000_000int
    } else {
        0
    }) + (if f.bb_width_5m < 30_000_000_000 {
        50_000_000_000int
    } else {
        0
    })
}

/// The weight of the surroundings of a momentum entry.
pub open spec fn momentum_context(f: Features, htf_bullish: bool) -> int {
    ONE + (if htf_bullish && f.velocity_5m > 0 {
        150_000_000_000int
    } else {
        0
    }) + (if f.volume_z > 500_000_000_000 {
        100_000_000_000int
    } else {
        0
    })
}

pub fn context_multiplier_for_squeeze_breakout(f: &Features, htf_bullish: bool) -> (m: i128)
    ensures
        m == squeeze_context(*f, htf_bullish),
        ONE <= m <= 1_300_000_000_000,
{
    let mut m: i128 = ONE;
    if htf_bullish {
        m = m + 200_000_000_000;
    }
    if f.volume_z > ONE {
        m = m + 100_000_000_000;
    }
    m
}

pub fn context_multiplier_for_trend_breakout(f: &Features, htf_bullish: bool) -> (m: i128)
    ensures
        m == trend_context(*f, htf_bullish),
        ONE <= m <= 1_250_000_000_000,
{
    let mut m: i128 = ONE;
    if htf_bullish {
        m = m + 150_000_000_000;
    }
    if f.volume_z > 500_000_000_000 {
        m = m + 100_000_000_000;
    }
    m
}

/// Not used while the dispatcher leaves mean reversion out.
pub fn context_multiplier_for_mean_reversion(f: &Features, htf_bullish: bool) -> (m: i128)
    ensures
        m == range_context(*f, htf_bullish),
        ONE <= m <= 1_350_000_000_000,
{
    let mut m: i128 = ONE;
    if htf_bullish {
        m = m + 200_000_000_000;
    }
    if f.volume_z < 0 {
        m = m + 100_000_000_000;
    }
    if f.bb_width_5m < 30_000_000_000 {
        m = m + 50_000_000_000;
    }
    m
}

pub fn context_multiplier_for_momentum(f: &Features, htf_bullish: bool) -> (m: i128)
    ensures
        m == momentum_context(*f, htf_bullish),
        ONE <= m <= 1_250_000_000_000,
{
    let mut m: i128 = ONE;
    if htf_bullish && f.velocity_5m > 0 {
        m = m + 150_000_000_000;
    }
    if f.volume_z > 500_000_000_000 {
        m = m + 100_000_000_000;
    }
    m
}

/// A signal to enter with its final score and the name of its strategy.
pub struct ScoredSignal {
    pub signal: Signal,
    pub score: i128,
    pub name: &'static str,
}

/// The content of a [`ScoredSignal`].
pub struct ScoredView {
    pub signal: SignalView,
    pub score: int,
    pub name: Seq<char>,
}

impl View for ScoredSignal {
    type V = ScoredView;

    open spec fn view(&self) -> ScoredView {
        ScoredView { signal: self.signal@, score: self.score as int, name: self.name@ }
    }
}

/// The contents of a list of candidates.
pub open spec fn scored_views(c: Seq<ScoredSignal>) -> Seq<ScoredView> {
    Seq::new(c.len(), |i: int| c[i]@)
}

/// Whether the candidate at `i` wins: it reaches the threshold, none scores
/// higher, and none before it scores as high.
pub open spec fn wins(c: Seq<ScoredView>, threshold: int, i: int) -> bool {
    &&& 0 <= i < c.len()
    &&& c[i].score >= threshold
    &&& forall|j: int| 0 <= j < c.len() ==> (#[trigger] c[j]).score <= c[i].score
    &&& forall|j: int| 0 <= j < i ==> (#[trigger] c[j]).score < c[i].score
}

/// What the dispatcher makes of the winner.
pub open spec fn chosen(w: ScoredView) -> SignalView {
    SignalView {
        reason: "["@ + w.name + "] "@ + w.signal.reason,
        score: w.score,
        strategy: w.name,
        ..w.signal
    }
}

/// The winner of a list of candidates, or the signal to hold where there is none.
pub open spec fn best(c: Seq<ScoredView>, threshold: int) -> SignalView {
    if exists|i: int| wins(c, threshold, i) {
        chosen(c[choose|i: int| wins(c, threshold, i)])
    } else {
        held("No strategy scored above the minimum entry threshold."@)
    }
}

/// The candidate with the highest score that reaches the threshold; of equals,
/// the first.
pub fn pick_best(candidates: &Vec<ScoredSignal>, threshold: i128) -> (s: Signal)
    ensures
        s@ == best(scored_views(candidates@), threshold as int),
{
    let ghost views = scored_views(candidates@);
    if candidates.len() == 0 {
        assert(!exists|i: int| wins(views, threshold as int, i));
        return hold_because("No strategy scored above the minimum entry threshold.");
    }
    let mut at: usize = 0;
    let mut i: usize = 1;
    while i < candidates.len()
        invariant
            views == scored_views(candidates@),
            at < i <= candidates@.len(),
            forall|j: int| 0 <= j < i ==> (#[trigger] views[j]).score <= views[at as int].score,
            forall|j: int| 0 <= j < at ==> (#[trigger] views[j]).score < views[at as int].score,
        decreases candidates@.len() - i,
    {
        assert(views[i as int].score == candidates@[i as int].score);
        assert(views[at as int].score == candidates@[at as int].score);
        if candidates[i].score > candidates[at].score {
            at = i;
        }
        i += 1;
    }
    let top: &ScoredSignal = &candidates[at];
    assert(views[at as int] == top@);
    if top.score < threshold {
        assert forall|k: int| !wins(views, threshold as int, k) by {
            if wins(views, threshold as int, k) {
                assert(views[k].score <= views[at as int].score);
            }
        }
        return hold_because("No strategy scored above the minimum entry threshold.");
    }
    proof {
        assert(wins(views, threshold as int, at as int));
        let w = choose|k: int| wins(views, threshold as int, k);
        if w < at {
            assert(views[w].score < views[at as int].score);
        } else if at < w {
            assert(views[at as int].score < views[w].score);
        }
        assert(w == at);
    }
    let mut reason: String = String::from_str("[");
    reason.append(top.name);
    reason.append("] ");
    reason.append(top.signal.reason.as_str());
    Signal {
        action: top.signal.action,
        confidence: top.signal.confidence,
        score: top.score,
        strategy: String::from_str(top.name),
        reason,
        stop_price: top.signal.stop_price,
    }
}

/// The list that holds a candidate where its signal is to enter, and nothing else.
pub open spec fn candidate(s: SignalView, context: int, name: Seq<char>) -> Seq<ScoredView> {
    if s.action == Action::EnterLong {
        seq![ScoredView { signal: s, score: product(s.confidence, context), name }]
    } else {
        Seq::empty()
    }
}

fn add_candidate(list: &mut Vec<ScoredSignal>, signal: Signal, context: i128, name: &'static str)
    requires
        0 <= signal.confidence <= ONE,
        ONE <= context <= 2 * ONE,
    ensures
        scored_views(final(list)@) == scored_views(old(list)@) + candidate(
            signal@,
            context as int,
            name@,
        ),
{
    if signal.action == Action::EnterLong {
        let score: i128 = mul_fixed(signal.confidence, context);
        list.push(ScoredSignal { signal, score, name });
    }
    assert(scored_views(list@) =~= scored_views(old(list)@) + candidate(
        signal@,
        context as int,
        name@,
    ));
}

/// The candidates that the dispatcher ranks. In a trend: the squeeze breakout,
/// the trend breakout and momentum. In a range: the squeeze breakout, where
/// volatility is compressed and the one-hour averages are stacked upwards, and
/// momentum. Mean reversion is not among them.
pub open spec fn candidates_for(
    regime: Regime,
    f: Features,
    current_price: int,
    vol_ratio: int,
    vol_squeeze: bool,
    htf_bullish: bool,
    set: SignalSettings,
) -> Seq<ScoredView> {
    let squeeze = candidate(
        squeeze_breakout(regime, f, current_price, vol_squeeze),
        squeeze_context(f, htf_bullish),
        "squeeze_breakout"@,
    );
    let accelerating = candidate(
        momentum(f, current_price, set),
        momentum_context(f, htf_bullish),
        "dynamic_momentum"@,
    );
    match regime {
        Regime::Trending => squeeze + candidate(
            trend_breakout(regime, f, current_price, vol_ratio, vol_squeeze, set),
            trend_context(f, htf_bullish),
            "trend_breakout"@,
        ) + accelerating,
        Regime::Ranging => if vol_squeeze && htf_bullish {
            squeeze + accelerating
        } else {
            accelerating
        },
        _ => Seq::empty(),
    }
}

/// What the dispatcher answers.
pub open spec fn entry_signal(
    regime: Regime,
    f: Features,
    current_price: int,
    vol_ratio: int,
    vol_squeeze: bool,
    htf_bullish: bool,
    bearish_bias: bool,
    set: SignalSettings,
) -> SignalView {
    if bearish_bias {
        held(
            "HTF EMA stack is fully bearish (EMA20 < EMA50 < EMA200 on 1h). No long entries until HTF picture improves."@,
        )
    } else if regime == Regime::Volatile || regime == Regime::Illiquid {
        held("No entry in "@ + regime_text(regime) + " regime. Waiting for settled conditions."@)
    } else {
        best(
            candidates_for(
                regime,
                f,
                current_price,
                vol_ratio,
                vol_squeeze,
                htf_bullish,
                set,
            ),
            set.min_entry_score as int,
        )
    }
}

/// Ranks the strategies that apply in the current regime by confidence times
/// context, and returns the best one that reaches the minimum score. Nothing is
/// entered against one-hour averages that are stacked downwards, nor in a
/// volatile or illiquid market.
pub fn entry_long_signal(
    regime: Regime,
    f: &Features,
    current_price: i128,
    vol_ratio: i128,
    vol_squeeze: bool,
    htf_bullish: bool,
    bearish_bias: bool,
    set: &SignalSettings,
) -> (s: Signal)
    requires
        f.ok(),
        bounded(current_price as int),
    ensures
        s@ == entry_signal(
            regime,
            *f,
            current_price as int,
            vol_ratio as int,
            vol_squeeze,
            htf_bullish,
            bearish_bias,
            *set,
        ),
{
    if bearish_bias {
        return hold_because(
            "HTF EMA stack is fully bearish (EMA20 < EMA50 < EMA200 on 1h). No long entries until HTF picture improves.",
        );
    }
    if regime == Regime::Volatile || regime == Regime::Illiquid {
        let mut m: String = String::from_str("No entry in ");
        m.append(regime.name());
        m.append(" regime. Waiting for settled conditions.");
        return hold(m);
    }
    let mut list: Vec<ScoredSignal> = Vec::new();
    assert(scored_views(list@) =~= Seq::empty());
    if regime == Regime::Trending || (vol_squeeze && htf_bullish) {
        add_candidate(
            &mut list,
            volatility_squeeze_breakout_signal(regime, f, current_price, vol_ratio, vol_squeeze),
            context_multiplier_for_squeeze_breakout(f, htf_bullish),
            "squeeze_breakout",
        );
    }
    if regime == Regime::Trending {
        add_candidate(
            &mut list,
            trend_breakout_long_only(regime, f, current_price, vol_ratio, vol_squeeze, set),
            context_multiplier_for_trend_breakout(f, htf_bullish),
            "trend_breakout",
        );
    }
    add_candidate(
        &mut list,
        dynamic_momentum_signal(f, current_price, set),
        context_multiplier_for_momentum(f, htf_bullish),
        "dynamic_momentum",
    );
    assert(scored_views(list@) =~= candidates_for(
        regime,
        *f,
        current_price as int,
        vol_ratio as int,
        vol_squeeze,
        htf_bullish,
        *set,
    ));
    pick_best(&list, set.min_entry_score)
}

/// Stacked-down one-hour averages veto every entry, whatever the rest says.
pub proof fn law_bearish_veto(
    regime: Regime,
    f: Features,
    current_price: int,
    vol_ratio: int,
    vol_squeeze: bool,
    htf_bullish: bool,
    set: SignalSettings,
)
    ensures
        entry_signal(
            regime,
            f,
            current_price,
            vol_ratio,
            vol_squeeze,
            htf_bullish,
            true,
            set,
        ).action == Action::Hold,
{
}

/// A volatile or illiquid market is never entered.
pub proof fn law_hostile_markets_hold(
    regime: Regime,
    f: Features,
    current_price: int,
    vol_ratio: int,
    vol_squeeze: bool,
    htf_bullish: bool,
    bearish_bias: bool,
    set: SignalSettings,
)
    requires
        regime == Regime::Volatile || regime == Regime::Illiquid,
    ensures
        entry_signal(
            regime,
            f,
            current_price,
            vol_ratio,
            vol_squeeze,
            htf_bullish,
            bearish_bias,
            set,
        ).action == Action::Hold,
{
}

/// An entry reaches the minimum score, has a stop, and comes from one of the
/// three active strategies: never from mean reversion.
pub proof fn law_entries_are_ranked(
    regime: Regime,
    f: Features,
    current_price: int,
    vol_ratio: int,
    vol_squeeze: bool,
    htf_bullish: bool,
    bearish_bias: bool,
    set: SignalSettings,
)
    ensures
        ({
            let s = entry_signal(
                regime,
                f,
                current_price,
                vol_ratio,
                vol_squeeze,
                htf_bullish,
                bearish_bias,
                set,
            );
            s.action != Action::Hold ==> {
                &&& s.action == Action::EnterLong
                &&& s.score >= set.min_entry_score
                &&& s.stop_price is Some
                &&& (s.strategy == "squeeze_breakout"@ || s.strategy == "trend_breakout"@
                    || s.strategy == "dynamic_momentum"@)
            }
        }),
{
    let c = candidates_for(
        regime,
        f,
        current_price,
        vol_ratio,
        vol_squeeze,
        htf_bullish,
        set,
    );
    assert forall|i: int| 0 <= i < c.len() implies (#[trigger] c[i]).signal.action
        == Action::EnterLong && c[i].signal.stop_price is Some && (c[i].name
        == "squeeze_breakout"@ || c[i].name == "trend_breakout"@ || c[i].name
        == "dynamic_momentum"@) by {}
}

/// The trend breakout and the squeeze breakout never both ask for an entry.
pub proof fn law_breakouts_are_exclusive(
    regime: Regime,
    f: Features,
    current_price: int,
    vol_ratio: int,
    vol_squeeze: bool,
    set: SignalSettings,
)
    ensures
        trend_breakout(regime, f, current_price, vol_ratio, vol_squeeze, set).action == Action::Hold
            || squeeze_breakout(regime, f, current_price, vol_squeeze).action == Action::Hold,
{
}

/// A multiple of a tenth, rounded to a step, is within half a step of it.
proof fn lemma_tenths(k: int, atr: int)
    requires
        atr >= 1,
        k >= 5,
    ensures
        -5 <= 10 * round_div(k * atr, 10) - k * atr <= 5,
        round_div(k * atr, 10) >= 1,
{
    lemma_round_div_error(k * atr, 10);
    assert(k * atr >= 5) by (nonlinear_arith)
        requires
            k >= 5,
            atr >= 1,
    ;
    lemma_round_div_monotone(5, k * atr, 10);
    assert(round_div(5, 10) == 1);
}

/// Every entry has its stop under the price: 1.8 average true ranges for the trend
/// breakout, 1.5 for the squeeze breakout and for momentum, the latter of one minute, each
/// to half a step; mean reversion has it half a range under the channel.
pub proof fn law_stops_are_under_the_price(
    regime: Regime,
    f: Features,
    current_price: int,
    vol_ratio: int,
    vol_squeeze: bool,
    set: SignalSettings,
)
    ensures
        ({
            let s = trend_breakout(regime, f, current_price, vol_ratio, vol_squeeze, set);
            s.action == Action::EnterLong ==> {
                &&& s.stop_price is Some
                &&& s.stop_price->0 < current_price
                &&& f.atr14_5m >= 1 ==> -5 <= 10 * (current_price - s.stop_price->0) - 18
                    * f.atr14_5m <= 5
            }
        }),
        ({
            let s = squeeze_breakout(regime, f, current_price, vol_squeeze);
            s.action == Action::EnterLong ==> {
                &&& s.stop_price is Some
                &&& s.stop_price->0 < current_price
                &&& f.atr14_5m >= 1 ==> -5 <= 10 * (current_price - s.stop_price->0) - 15
                    * f.atr14_5m <= 5
            }
        }),
        ({
            let s = momentum(f, current_price, set);
            s.action == Action::EnterLong ==> {
                &&& s.stop_price is Some
                &&& s.stop_price->0 < current_price
                &&& f.atr14_1m >= 1 ==> -5 <= 10 * (current_price - s.stop_price->0) - 15
                    * f.atr14_1m <= 5
            }
        }),
        ({
            let s = mean_reversion(f, current_price, set);
            s.action == Action::EnterLong ==> {
                &&& s.stop_price is Some
                &&& s.stop_price->0 < current_price
                &&& s.stop_price->0 < f.donchian_low20_5m < current_price
                &&& f.atr14_5m >= 1 ==> -1 <= 2 * (f.donchian_low20_5m - s.stop_price->0)
                    - f.atr14_5m <= 1
            }
        }),
{
    let a = max_of(f.atr14_5m as int, 1);
    let b = max_of(f.atr14_1m as int, 1);
    lemma_tenths(18, a);
    lemma_tenths(15, a);
    lemma_tenths(15, b);
    lemma_round_div_error(a, 2);
    lemma_round_div_monotone(1, a, 2);
    assert(round_div(1, 2) == 1);
}

/// The trend breakout enters in a trend without a squeeze, on a close over the channel,
/// with volume or volatility behind it, and with the strong volume where that is asked for;
/// else it holds.
pub proof fn law_trend_breakout_conditions(
    regime: Regime,
    f: Features,
    current_price: int,
    vol_ratio: int,
    vol_squeeze: bool,
    set: SignalSettings,
)
    ensures
        trend_breakout(regime, f, current_price, vol_ratio, vol_squeeze, set).action
            == Action::EnterLong <==> {
            &&& regime == Regime::Trending
            &&& !vol_squeeze
            &&& f.last_close_5m > f.donchian_high20_5m
            &&& (f.volume_z > 0 || vol_ratio > 1_100_000_000_000)
            &&& (set.breakout_require_volume ==> f.volume_z >= set.breakout_volume_z_min)
        },
        trend_breakout(regime, f, current_price, vol_ratio, vol_squeeze, set).action
            != Action::EnterLong ==> {
            let s = trend_breakout(regime, f, current_price, vol_ratio, vol_squeeze, set);
            s.action == Action::Hold && s.stop_price is None && s.score == 0 && s.confidence == 0
        },
{
}

/// The squeeze breakout enters after a squeeze, in a market that is neither volatile nor
/// illiquid, on a close over the channel and unless the volume is very weak; else it holds.
pub proof fn law_squeeze_breakout_conditions(
    regime: Regime,
    f: Features,
    current_price: int,
    vol_squeeze: bool,
)
    ensures
        squeeze_breakout(regime, f, current_price, vol_squeeze).action == Action::EnterLong <==> {
            &&& vol_squeeze
            &&& regime != Regime::Volatile
            &&& regime != Regime::Illiquid
            &&& f.last_close_5m > f.donchian_high20_5m
            &&& f.volume_z >= -500_000_000_000
        },
        squeeze_breakout(regime, f, current_price, vol_squeeze).action != Action::EnterLong ==> {
            let s = squeeze_breakout(regime, f, current_price, vol_squeeze);
            s.action == Action::Hold && s.stop_price is None && s.score == 0 && s.confidence == 0
        },
{
}

/// Mean reversion enters on a dip to the lower band that is not too wide, with the strength
/// index in its zone, above the channel, turned up where that is asked for, and with room
/// for a stop; else it holds.
pub proof fn law_mean_reversion_conditions(f: Features, current_price: int, set: SignalSettings)
    requires
        f.atr14_5m >= 1,
    ensures
        mean_reversion(f, current_price, set).action == Action::EnterLong <==> {
            &&& f.bb_lower_5m > 0
            &&& 0 < f.bb_width_5m <= set.range_bb_width_max
            &&& current_price * 1_000_000_000_000 <= f.bb_lower_5m * (1_000_000_000_000
                + set.range_entry_zone_pct)
            &&& set.range_rsi_min <= f.rsi14_5m <= set.range_rsi_max
            &&& current_price > f.donchian_low20_5m
            &&& (set.range_require_velocity ==> f.velocity_1m > set.range_velocity_min)
        },
        mean_reversion(f, current_price, set).action != Action::EnterLong ==> {
            let s = mean_reversion(f, current_price, set);
            s.action == Action::Hold && s.stop_price is None && s.score == 0 && s.confidence == 0
        },
{
    lemma_round_div_error(f.atr14_5m as int, 2);
    lemma_round_div_monotone(1, f.atr14_5m as int, 2);
    assert(round_div(1, 2) == 1);
    assert(current_price * ONE == current_price * 1_000_000_000_000);
}

/// The confidence of a breakout grows with the distance of the close from the channel, in
/// average true ranges: the trend breakout is sure at two of them and has half of the
/// distance below; the squeeze breakout starts at 0.3 and is sure at one and a half.
pub proof fn law_breakout_confidence_is_the_distance(
    regime: Regime,
    f: Features,
    current_price: int,
    vol_ratio: int,
    vol_squeeze: bool,
    set: SignalSettings,
)
    requires
        f.atr14_5m >= 1,
    ensures
        ({
            let s = trend_breakout(regime, f, current_price, vol_ratio, vol_squeeze, set);
            let d = f.last_close_5m - f.donchian_high20_5m;
            let a = f.atr14_5m;
            s.action == Action::EnterLong ==> {
                &&& s.score == s.confidence
                &&& (d >= 2 * a ==> s.confidence == 1_000_000_000_000)
                &&& (d <= 2 * a ==> -2 * a <= 2 * (s.confidence * a) - d * 1_000_000_000_000 <= 2 * a)
            }
        }),
        ({
            let s = squeeze_breakout(regime, f, current_price, vol_squeeze);
            let d = f.last_close_5m - f.donchian_high20_5m;
            let a = f.atr14_5m;
            s.action == Action::EnterLong ==> {
                &&& s.score == s.confidence
                &&& (2 * d >= 3 * a ==> s.confidence == 1_000_000_000_000)
                &&& (2 * d <= 3 * a ==> -15 * a <= 15 * ((s.confidence - 300_000_000_000) * a) - 7 * d
                    * 1_000_000_000_000 <= 15 * a)
            }
        }),
{
    let a = f.atr14_5m as int;
    let d = f.last_close_5m - f.donchian_high20_5m;
    let x = breakout_distance(f);
    lemma_round_div_error(d * ONE, a);
    let xa = x * a;
    assert(2 * (d * ONE) - a <= 2 * xa <= 2 * (d * ONE) + a);
    if d > 0 {
        lemma_round_div_monotone(0, d * ONE, a);
        lemma_round_div_exact(0, a);
        if d >= 2 * a {
            assert((2 * ONE) * a <= d * ONE) by (nonlinear_arith)
                requires
                    d >= 2 * a,
            ;
            lemma_round_div_monotone((2 * ONE) * a, d * ONE, a);
            lemma_round_div_exact(2 * ONE as int, a);
        }
        if d <= 2 * a {
            assert(d * ONE <= (2 * ONE) * a) by (nonlinear_arith)
                requires
                    d <= 2 * a,
            ;
            lemma_round_div_monotone(d * ONE, (2 * ONE) * a, a);
            lemma_round_div_exact(2 * ONE as int, a);
            lemma_round_div_error(x, 2);
            let c = round_div(x, 2);
            assert(-a <= 2 * (c * a) - xa <= a) by (nonlinear_arith)
                requires
                    -1 <= 2 * c - x <= 1,
                    xa == x * a,
                    a > 0,
            ;
        }
        if 2 * d >= 3 * a {
            assert(1_500_000_000_000 * a <= d * ONE) by (nonlinear_arith)
                requires
                    2 * d >= 3 * a,
            ;
            lemma_round_div_monotone(1_500_000_000_000 * a, d * ONE, a);
            lemma_round_div_exact(1_500_000_000_000, a);
            lemma_round_div_exact(700_000_000_000, 15);
        }
        if 2 * d <= 3 * a {
            assert(d * ONE <= 1_500_000_000_000 * a) by (nonlinear_arith)
                requires
                    2 * d <= 3 * a,
            ;
            lemma_round_div_monotone(d * ONE, 1_500_000_000_000 * a, a);
            lemma_round_div_exact(1_500_000_000_000, a);
            lemma_round_div_error(7 * x, 15);
            let c = round_div(7 * x, 15);
            assert(-15 * a <= 2 * (15 * (c * a) - 7 * xa) <= 15 * a) by (nonlinear_arith)
                requires
                    -15 <= 2 * (15 * c - 7 * x) <= 15,
                    xa == x * a,
                    a > 0,
            ;
        }
    }
    lemma_round_div_exact(ONE as int, 2);
}

/// The confidence of momentum is half the velocity, three tenths the acceleration and two
/// tenths the volume. `accel` is any number between zero and one that is the velocity over
/// that of five minutes, less one, to a step; one where the five minutes stand still.
pub proof fn law_momentum_confidence_is_weighed(
    f: Features,
    current_price: int,
    set: SignalSettings,
    accel: int,
)
    requires
        f.velocity_1m >= 0,
        ({
            let w = if f.velocity_5m >= 0 {
                f.velocity_5m as int
            } else {
                -(f.velocity_5m as int)
            };
            if w <= 1 || f.velocity_1m >= 2 * w {
                accel == 1_000_000_000_000
            } else if f.velocity_1m <= w {
                accel == 0
            } else {
                -w <= accel * w - (f.velocity_1m - w) * 1_000_000_000_000 <= w
            }
        }),
    ensures
        ({
            let s = momentum(f, current_price, set);
            let vel = if f.velocity_1m >= 1_000_000_000 {
                1_000_000_000_000int
            } else {
                1000 * f.velocity_1m
            };
            let vol3 = if f.volume_z <= 0 {
                0int
            } else if f.volume_z >= 3_000_000_000_000 {
                3_000_000_000_000
            } else {
                f.volume_z as int
            };
            s.action == Action::EnterLong ==> {
                &&& s.score == s.confidence
                &&& -40 <= 30 * s.confidence - (15 * vel + 9 * accel + 2 * vol3) <= 40
            }
        }),
{
    let w = abs_of(f.velocity_5m as int);
    let v = f.velocity_1m as int;
    let vel = clamped(1000 * v, 0, ONE as int);
    let vol3 = clamped(f.volume_z as int, 0, 3 * ONE);
    let vol = round_div(vol3, 3);
    lemma_round_div_error(vol3, 3);
    let x = if w > 1 {
        clamped(quotient(v, w) - ONE, 0, ONE as int)
    } else {
        ONE as int
    };
    if w > 1 {
        let q = quotient(v, w);
        lemma_round_div_error(v * ONE, w);
        let qw = q * w;
        if v >= 2 * w {
            assert((2 * ONE) * w <= v * ONE) by (nonlinear_arith)
                requires
                    v >= 2 * w,
            ;
            lemma_round_div_monotone((2 * ONE) * w, v * ONE, w);
            lemma_round_div_exact(2 * ONE as int, w);
        } else if v <= w {
            assert(v * ONE <= ONE * w) by (nonlinear_arith)
                requires
                    v <= w,
            ;
            lemma_round_div_monotone(v * ONE, ONE * w, w);
            lemma_round_div_exact(ONE as int, w);
        } else {
            assert(ONE * w <= v * ONE <= (2 * ONE) * w) by (nonlinear_arith)
                requires
                    w <= v <= 2 * w,
            ;
            lemma_round_div_monotone(ONE * w, v * ONE, w);
            lemma_round_div_monotone(v * ONE, (2 * ONE) * w, w);
            lemma_round_div_exact(ONE as int, w);
            lemma_round_div_exact(2 * ONE as int, w);
            let aw = accel * w;
            let d = accel - x;
            assert(d * w == aw - (qw - ONE * w)) by (nonlinear_arith)
                requires
                    d == accel - x,
                    x == q - ONE,
                    aw == accel * w,
                    qw == q * w,
            ;
            assert(-1 <= d <= 1) by (nonlinear_arith)
                requires
                    -3 * w <= 2 * (d * w) <= 3 * w,
                    w > 1,
            ;
        }
    }
    assert(-1 <= accel - x <= 1);
    lemma_round_div_error(5 * vel + 3 * x + 2 * vol, 10);
}

/// What the surroundings add to the score: the stacked one-hour averages 0.2 to a squeeze
/// breakout, 0.15 to a trend breakout, and 0.15 to momentum where the five minutes rise; a
/// volume above its bound 0.1 each.
pub proof fn law_surroundings_add_to_the_score(f: Features, htf_bullish: bool)
    ensures
        squeeze_context(f, true) - squeeze_context(f, false) == 200_000_000_000,
        trend_context(f, true) - trend_context(f, false) == 150_000_000_000,
        range_context(f, true) - range_context(f, false) == 200_000_000_000,
        momentum_context(f, true) - momentum_context(f, false) == (if f.velocity_5m > 0 {
            150_000_000_000int
        } else {
            0
        }),
        squeeze_context(f, false) == (if f.volume_z > 1_000_000_000_000 {
            1_100_000_000_000int
        } else {
            1_000_000_000_000
        }),
        trend_context(f, false) == (if f.volume_z > 500_000_000_000 {
            1_100_000_000_000int
        } else {
            1_000_000_000_000
        }),
        momentum_context(f, false) == (if f.volume_z > 500_000_000_000 {
            1_100_000_000_000int
        } else {
            1_000_000_000_000
        }),
        range_context(f, false) == 1_000_000_000_000 + (if f.volume_z < 0 {
            100_000_000_000int
        } else {
            0
        }) + (if f.bb_width_5m < 30_000_000_000 {
            50_000_000_000int
        } else {
            0
        }),
{
}

/// Whether `score` is a confidence times the weight of its surroundings, to half a step.
pub open spec fn is_score(score: int, confidence: int, context: int) -> bool {
    -1_000_000_000_000 <= 2 * (score * 1_000_000_000_000 - confidence * context)
        <= 1_000_000_000_000
}

/// The dispatcher enters with the strategy that scores highest: its score is the confidence
/// times the surroundings, it reaches the threshold, its stop is that of the strategy and
/// under the price, and no strategy that may enter here scores higher.
pub proof fn law_best_strategy_enters(
    regime: Regime,
    f: Features,
    current_price: int,
    vol_ratio: int,
    vol_squeeze: bool,
    htf_bullish: bool,
    set: SignalSettings,
)
    ensures
        ({
            let s = entry_signal(
                regime,
                f,
                current_price,
                vol_ratio,
                vol_squeeze,
                htf_bullish,
                false,
                set,
            );
            let sq = squeeze_breakout(regime, f, current_price, vol_squeeze);
            let tb = trend_breakout(regime, f, current_price, vol_ratio, vol_squeeze, set);
            let mo = momentum(f, current_price, set);
            s.action == Action::EnterLong ==> {
                &&& s.score >= set.min_entry_score
                &&& s.stop_price is Some
                &&& s.stop_price->0 < current_price
                &&& s.strategy == "squeeze_breakout"@ ==> {
                    &&& sq.action == Action::EnterLong
                    &&& s.stop_price == sq.stop_price
                    &&& s.confidence == sq.confidence
                    &&& is_score(s.score, sq.confidence, squeeze_context(f, htf_bullish))
                    &&& (regime == Regime::Trending || htf_bullish)
                }
                &&& s.strategy == "trend_breakout"@ ==> {
                    &&& tb.action == Action::EnterLong
                    &&& s.stop_price == tb.stop_price
                    &&& s.confidence == tb.confidence
                    &&& is_score(s.score, tb.confidence, trend_context(f, htf_bullish))
                }
                &&& s.strategy == "dynamic_momentum"@ ==> {
                    &&& mo.action == Action::EnterLong
                    &&& s.stop_price == mo.stop_price
                    &&& s.confidence == mo.confidence
                    &&& is_score(s.score, mo.confidence, momentum_context(f, htf_bullish))
                }
            }
        }),
{
    reveal_strlit("squeeze_breakout");
    reveal_strlit("trend_breakout");
    reveal_strlit("dynamic_momentum");
    assert("squeeze_breakout"@.len() == 16 && "trend_breakout"@.len() == 14);
    assert("dynamic_momentum"@.len() == 16 && "dynamic_momentum"@[0] == 'd'
        && "squeeze_breakout"@[0] == 's');
    law_stops_are_under_the_price(regime, f, current_price, vol_ratio, vol_squeeze, set);
    let sq = squeeze_breakout(regime, f, current_price, vol_squeeze);
    let tb = trend_breakout(regime, f, current_price, vol_ratio, vol_squeeze, set);
    let mo = momentum(f, current_price, set);
    lemma_round_div_error(sq.confidence * squeeze_context(f, htf_bullish), ONE as int);
    lemma_round_div_error(tb.confidence * trend_context(f, htf_bullish), ONE as int);
    lemma_round_div_error(mo.confidence * momentum_context(f, htf_bullish), ONE as int);
    let c = candidates_for(
        regime,
        f,
        current_price,
        vol_ratio,
        vol_squeeze,
        htf_bullish,
        set,
    );
    assert forall|i: int| 0 <= i < c.len() implies {
        ||| (#[trigger] c[i]).name == "squeeze_breakout"@ && c[i].signal == sq && sq.action
            == Action::EnterLong && (regime == Regime::Trending || htf_bullish) && is_score(
            c[i].score,
            sq.confidence,
            squeeze_context(f, htf_bullish),
        )
        ||| c[i].name == "trend_breakout"@ && c[i].signal == tb && tb.action == Action::EnterLong
            && is_score(c[i].score, tb.confidence, trend_context(f, htf_bullish))
        ||| c[i].name == "dynamic_momentum"@ && c[i].signal == mo && mo.action == Action::EnterLong
            && is_score(c[i].score, mo.confidence, momentum_context(f, htf_bullish))
    } by {}
}

/// A strategy whose score reaches the threshold is not passed over: the dispatcher then
/// enters, with a score that is at least as high.
pub proof fn law_no_candidate_is_passed_over(
    regime: Regime,
    f: Features,
    current_price: int,
    vol_ratio: int,
    vol_squeeze: bool,
    htf_bullish: bool,
    set: SignalSettings,
    score: int,
)
    requires
        regime == Regime::Trending || regime == Regime::Ranging,
        score >= set.min_entry_score,
        ({
            let sq = squeeze_breakout(regime, f, current_price, vol_squeeze);
            let tb = trend_breakout(regime, f, current_price, vol_ratio, vol_squeeze, set);
            let mo = momentum(f, current_price, set);
            ||| sq.action == Action::EnterLong && (regime == Regime::Trending || htf_bullish)
                && 2 * (score * 1_000_000_000_000) < 2 * (sq.confidence * squeeze_context(f, htf_bullish))
                    - 1_000_000_000_000
            ||| tb.action == Action::EnterLong && 2 * (score * 1_000_000_000_000) < 2 * (tb.confidence
                * trend_context(f, htf_bullish)) - 1_000_000_000_000
            ||| mo.action == Action::EnterLong && 2 * (score * 1_000_000_000_000) < 2 * (mo.confidence
                * momentum_context(f, htf_bullish)) - 1_000_000_000_000
        }),
    ensures
        ({
            let s = entry_signal(
                regime,
                f,
                current_price,
                vol_ratio,
                vol_squeeze,
                htf_bullish,
                false,
                set,
            );
            s.action == Action::EnterLong && s.score >= score
        }),
{
    let sq = squeeze_breakout(regime, f, current_price, vol_squeeze);
    let tb = trend_breakout(regime, f, current_price, vol_ratio, vol_squeeze, set);
    let mo = momentum(f, current_price, set);
    lemma_round_div_error(sq.confidence * squeeze_context(f, htf_bullish), ONE as int);
    lemma_round_div_error(tb.confidence * trend_context(f, htf_bullish), ONE as int);
    lemma_round_div_error(mo.confidence * momentum_context(f, htf_bullish), ONE as int);
    let c = candidates_for(
        regime,
        f,
        current_price,
        vol_ratio,
        vol_squeeze,
        htf_bullish,
        set,
    );
    let q = candidate(sq, squeeze_context(f, htf_bullish), "squeeze_breakout"@);
    let t = candidate(tb, trend_context(f, htf_bullish), "trend_breakout"@);
    let m = candidate(mo, momentum_context(f, htf_bullish), "dynamic_momentum"@);
    if q.len() > 0 && (regime == Regime::Trending || htf_bullish) {
        assert(c[0] == q[0]);
    }
    if t.len() > 0 {
        assert(c[c.len() - m.len() - 1] == t[0]);
    }
    if m.len() > 0 {
        assert(c[c.len() - 1] == m[0]);
    }
    assert(exists|i: int| 0 <= i < c.len() && (#[trigger] c[i]).score >= score);
    lemma_some_wins(c, c.len() as int, set.min_entry_score as int, score);
    assert forall|i: int| 0 <= i < c.len() implies (#[trigger] c[i]).signal.action
        == Action::EnterLong by {}
}

/// Where a candidate reaches a score that is no lower than the threshold, one of them wins
/// with at least that score.
proof fn lemma_some_wins(c: Seq<ScoredView>, n: int, threshold: int, score: int)
    requires
        n == c.len(),
        score >= threshold,
        exists|i: int| 0 <= i < c.len() && (#[trigger] c[i]).score >= score,
    ensures
        exists|i: int| #[trigger] wins(c, threshold, i),
        forall|i: int| #[trigger] wins(c, threshold, i) ==> c[i].score >= score,
{
    let i = choose|i: int| 0 <= i < c.len() && (#[trigger] c[i]).score >= score;
    let k = lemma_first_best(c, n);
    assert(c[i].score <= c[k].score);
    assert(wins(c, threshold, k));
}

/// The first of the highest candidates.
proof fn lemma_first_best(c: Seq<ScoredView>, n: int) -> (k: int)
    requires
        0 < n <= c.len(),
    ensures
        0 <= k < n,
        forall|j: int| 0 <= j < n ==> (#[trigger] c[j]).score <= c[k].score,
        forall|j: int| 0 <= j < k ==> (#[trigger] c[j]).score < c[k].score,
    decreases n,
{
    if n == 1 {
        0
    } else {
        let k = lemma_first_best(c, n - 1);
        if c[n - 1].score > c[k].score {
            n - 1
        } else {
            k
        }
    }
}

/// The confidence of a mean-reversion entry: nearby support adds 0.15, drying volume 0.1, a
/// deeper dip never takes anything away, and it is never over 0.9.
pub proof fn law_mean_reversion_confidence_adds_up(
    f: Features,
    g: Features,
    price: int,
    lower: int,
    set: SignalSettings,
)
    requires
        lower <= price,
        f.atr14_5m >= 1,
        g == (Features { volume_z: g.volume_z, ..f }),
    ensures
        f.volume_z >= 0 && g.volume_z < 0 ==> mean_reversion_confidence(g, price, set)
            - mean_reversion_confidence(f, price, set) == 100_000_000_000,
        mean_reversion_confidence(f, lower, set) >= mean_reversion_confidence(f, price, set),
        0 <= mean_reversion_confidence(f, price, set) <= 900_000_000_000,
        lower > f.bb_lower_5m && 2 * (price - f.donchian_low20_5m) >= 3 * f.atr14_5m && 2 * (lower
            - f.donchian_low20_5m) < 3 * f.atr14_5m ==> mean_reversion_confidence(f, lower, set)
            - mean_reversion_confidence(f, price, set) == 150_000_000_000,
        f.rsi14_5m >= set.range_rsi_max && price >= f.bb_lower_5m ==> mean_reversion_confidence(
            f,
            price,
            set,
        ) == (if f.volume_z < 0 {
            100_000_000_000int
        } else {
            0
        }) + (if 2 * (price - f.donchian_low20_5m) < 3 * f.atr14_5m {
            150_000_000_000int
        } else {
            0
        }),
{
    let a = f.atr14_5m as int;
    let x = max_of(f.bb_lower_5m - price, 0);
    let y = max_of(f.bb_lower_5m - lower, 0);
    lemma_round_div_monotone(x * ONE, y * ONE, a);
    lemma_round_div_monotone(6 * quotient(x, a), 6 * quotient(y, a), 10);
    lemma_round_div_exact(0, a);
    lemma_round_div_exact(0, 10);
    let w = max_of(set.range_rsi_max - set.range_rsi_min, 1);
    lemma_round_div_exact(0, w);
    if f.rsi14_5m >= set.range_rsi_max {
        lemma_round_div_monotone((set.range_rsi_max - f.rsi14_5m) * ONE, 0, w);
        let q = quotient(set.range_rsi_max - f.rsi14_5m, w);
        lemma_round_div_monotone(3 * q, 0, 10);
    }
}

} // verus!
