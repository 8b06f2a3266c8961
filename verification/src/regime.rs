//! Market regimes.
use crate::features::Features;
use crate::fixed::{
    abs_fixed, abs_of, div_fixed, max_fixed, max_of, quotient, quotient_at_least, quotient_at_most, ONE,
};
use crate::text::{fixed_string, fixed_text};
use vstd::prelude::*;

verus! {

/// What kind of market the features describe.
#[derive(Clone, Copy, Debug, PartialEq, Eq, Structural)]
pub enum Regime {
    Trending,
    Ranging,
    Volatile,
    Illiquid,
}

/// The name of a regime, as it stands in messages.
pub open spec fn regime_text(r: Regime) -> Seq<char> {
    match r {
        Regime::Trending => "Trending"@,
        Regime::Ranging => "Ranging"@,
        Regime::Volatile => "Volatile"@,
        Regime::Illiquid => "Illiquid"@,
    }
}

impl Regime {
    /// The name of the regime.
    pub fn name(self) -> (s: &'static str)
        ensures
            s@ == regime_text(self),
    {
        match self {
            Regime::Trending => "Trending",
            Regime::Ranging => "Ranging",
            Regime::Volatile => "Volatile",
            Regime::Illiquid => "Illiquid",
        }
    }
}

/// Where one regime ends and the next begins.
#[derive(Clone, Copy, Debug, PartialEq, Eq, Structural)]
pub struct RegimeThresholds {
    pub trend_strength_min: i128,
    pub trend_strength_ranging: i128,
    pub vol_ratio_volatile: i128,
    pub atr_ratio_volatile: i128,
    pub atr_ratio_squeeze: i128,
    pub volume_z_illiquid: i128,
}

impl Default for RegimeThresholds {
    /// 0.8, 0.5, 1.5, 1.5, 0.8 and -1.5.
    fn default() -> (t: RegimeThresholds)
        ensures
            t == (RegimeThresholds {
                trend_strength_min: 800_000_000_000,
                trend_strength_ranging: 500_000_000_000,
                vol_ratio_volatile: 1_500_000_000_000,
                atr_ratio_volatile: 1_500_000_000_000,
                atr_ratio_squeeze: 800_000_000_000,
                volume_z_illiquid: (-1_500_000_000_000) as i128,
            }),
    {
        RegimeThresholds {
            trend_strength_min: 800_000_000_000,
            trend_strength_ranging: 500_000_000_000,
            vol_ratio_volatile: 1_500_000_000_000,
            atr_ratio_volatile: 1_500_000_000_000,
            atr_ratio_squeeze: 800_000_000_000,
            volume_z_illiquid: -1_500_000_000_000,
        }
    }
}

/// A regime with the measures behind it.
#[derive(Clone, Debug)]
pub struct RegimeResult {
    pub regime: Regime,
    pub reason: String,
    pub trend_strength: i128,
    pub vol_ratio: i128,
    /// The short average true range is well below the long one: volatility is
    /// compressing.
    pub vol_squeeze: bool,
    /// On one hour, the 20-bar average is over the 50-bar one, and that over the
    /// 200-bar one.
    pub htf_bullish: bool,
    /// On one hour, the 20-bar average is under the 50-bar one, and that under
    /// the 200-bar one.
    pub bearish_bias: bool,
}

/// The distance of the five-minute averages, in average true ranges.
pub open spec fn trend_strength(f: Features) -> int {
    quotient(abs_of(f.ema20_5m - f.ema50_5m), max_of(f.atr14_5m as int, 1))
}

/// The short realised volatility over the long one.
pub open spec fn vol_ratio(f: Features) -> int {
    quotient(f.rv_short as int, max_of(f.rv_long as int, 1))
}

/// Whether volatility is compressing.
pub open spec fn vol_squeeze(f: Features, t: RegimeThresholds) -> bool {
    0 < f.atr_ratio_5m < t.atr_ratio_squeeze
}

/// Whether the one-hour averages are stacked upwards.
pub open spec fn htf_bullish(f: Features) -> bool {
    f.ema20_1h > f.ema50_1h > f.ema200_1h
}

/// Whether the one-hour averages are stacked downwards.
pub open spec fn bearish_bias(f: Features) -> bool {
    f.ema20_1h < f.ema50_1h < f.ema200_1h
}

/// Whether the market shakes: the short volatility is high against the long one,
/// or the range of the bars has grown. The quotient is compared before it is
/// rounded.
pub open spec fn shaking(f: Features, t: RegimeThresholds) -> bool {
    f.rv_short * ONE >= t.vol_ratio_volatile * max_of(f.rv_long as int, 1) || f.atr_ratio_5m
        > t.atr_ratio_volatile
}

/// Whether the five-minute averages are at least `least` average true ranges apart.
pub open spec fn trend_at_least(f: Features, least: int) -> bool {
    abs_of(f.ema20_5m - f.ema50_5m) * ONE >= least * max_of(f.atr14_5m as int, 1)
}

/// Whether the five-minute averages are at most `most` average true ranges apart.
pub open spec fn trend_at_most(f: Features, most: int) -> bool {
    abs_of(f.ema20_5m - f.ema50_5m) * ONE <= most * max_of(f.atr14_5m as int, 1)
}

/// The regime: illiquid before volatile before trending before ranging.
pub open spec fn regime_of(f: Features, t: RegimeThresholds) -> Regime {
    if f.volume_z < t.volume_z_illiquid {
        Regime::Illiquid
    } else if shaking(f, t) {
        Regime::Volatile
    } else if trend_at_least(f, t.trend_strength_min as int) && htf_bullish(f) {
        Regime::Trending
    } else {
        Regime::Ranging
    }
}

/// The reason that goes with the regime.
pub open spec fn regime_reason(f: Features, t: RegimeThresholds) -> Seq<char> {
    match regime_of(f, t) {
        Regime::Illiquid => "Volume is low (z="@ + fixed_text(f.volume_z as int, 2) + ")."@,
        Regime::Volatile => "Market is shaking (vol_ratio="@ + fixed_text(vol_ratio(f), 2)
            + ", atr_ratio="@ + fixed_text(f.atr_ratio_5m as int, 2) + ")."@,
        Regime::Trending => "Trend looks strong (strength="@ + fixed_text(trend_strength(f), 2)
            + ", HTF bullish aligned)."@,
        Regime::Ranging => if trend_at_most(f, t.trend_strength_ranging as int) {
            "Price is moving sideways (strength="@ + fixed_text(trend_strength(f), 2) + ")."@
        } else {
            "No clear trend (strength="@ + fixed_text(trend_strength(f), 2) + ")."@
        },
    }
}

/// Classifies the market.
pub fn detect_regime(f: &Features, t: &RegimeThresholds) -> (r: RegimeResult)
    requires
        f.ok(),
    ensures
        r.regime == regime_of(*f, *t),
        r.reason@ == regime_reason(*f, *t),
        r.trend_strength == trend_strength(*f),
        r.vol_ratio == vol_ratio(*f),
        r.vol_squeeze == vol_squeeze(*f, *t),
        r.htf_bullish == htf_bullish(*f),
        r.bearish_bias == bearish_bias(*f),
{
    let gap: i128 = abs_fixed(f.ema20_5m - f.ema50_5m);
    let atr: i128 = max_fixed(f.atr14_5m, 1);
    let long: i128 = max_fixed(f.rv_long, 1);
    let strength: i128 = div_fixed(gap, atr);
    let ratio: i128 = div_fixed(f.rv_short, long);
    let squeeze: bool = f.atr_ratio_5m > 0 && f.atr_ratio_5m < t.atr_ratio_squeeze;
    let bullish: bool = f.ema20_1h > f.ema50_1h && f.ema50_1h > f.ema200_1h;
    let bearish: bool = f.ema20_1h < f.ema50_1h && f.ema50_1h < f.ema200_1h;
    let regime: Regime;
    let mut reason: String;
    if f.volume_z < t.volume_z_illiquid {
        regime = Regime::Illiquid;
        reason = String::from_str("Volume is low (z=");
        reason.append(fixed_string(f.volume_z, 2).as_str());
        reason.append(").");
    } else if quotient_at_least(f.rv_short, long, t.vol_ratio_volatile) || f.atr_ratio_5m
        > t.atr_ratio_volatile {
        regime = Regime::Volatile;
        reason = String::from_str("Market is shaking (vol_ratio=");
        reason.append(fixed_string(ratio, 2).as_str());
        reason.append(", atr_ratio=");
        reason.append(fixed_string(f.atr_ratio_5m, 2).as_str());
        reason.append(").");
    } else if quotient_at_least(gap, atr, t.trend_strength_min) && bullish && !bearish {
        regime = Regime::Trending;
        reason = String::from_str("Trend looks strong (strength=");
        reason.append(fixed_string(strength, 2).as_str());
        reason.append(", HTF bullish aligned).");
    } else if quotient_at_most(gap, atr, t.trend_strength_ranging) {
        regime = Regime::Ranging;
        reason = String::from_str("Price is moving sideways (strength=");
        reason.append(fixed_string(strength, 2).as_str());
        reason.append(").");
    } else {
        regime = Regime::Ranging;
        reason = String::from_str("No clear trend (strength=");
        reason.append(fixed_string(strength, 2).as_str());
        reason.append(").");
    }
    RegimeResult {
        regime,
        reason,
        trend_strength: strength,
        vol_ratio: ratio,
        vol_squeeze: squeeze,
        htf_bullish: bullish,
        bearish_bias: bearish,
    }
}

/// Low volume outranks everything else, and a shaking market outranks a trend.
pub proof fn law_regime_priority(f: Features, t: RegimeThresholds)
    ensures
        f.volume_z < t.volume_z_illiquid ==> regime_of(f, t) == Regime::Illiquid,
        f.volume_z >= t.volume_z_illiquid && shaking(f, t) ==> regime_of(f, t) == Regime::Volatile,
{
}

/// A market whose one-hour averages are stacked downwards is never trending, and
/// they are never stacked both ways.
pub proof fn law_bearish_is_not_trending(f: Features, t: RegimeThresholds)
    ensures
        bearish_bias(f) ==> regime_of(f, t) != Regime::Trending,
        !(bearish_bias(f) && htf_bullish(f)),
{
}

/// A market is illiquid where its volume is far below the usual, else volatile where its
/// short-term volatility or its range is far above the usual, else trending where the trend is
/// strong and the higher averages are in rising order, else ranging.
pub proof fn law_regime_by_its_measures(f: Features, t: RegimeThresholds)
    requires
        f.rv_long >= 1,
        f.atr14_5m >= 1,
    ensures
        ({
            let quiet = f.volume_z < t.volume_z_illiquid;
            let wild = f.rv_short * ONE >= t.vol_ratio_volatile * f.rv_long || f.atr_ratio_5m
                > t.atr_ratio_volatile;
            let gap = if f.ema20_5m >= f.ema50_5m {
                f.ema20_5m - f.ema50_5m
            } else {
                f.ema50_5m - f.ema20_5m
            };
            let strong = gap * ONE >= t.trend_strength_min * f.atr14_5m;
            let rising = f.ema20_1h > f.ema50_1h && f.ema50_1h > f.ema200_1h;
            let r = regime_of(f, t);
            &&& r == Regime::Illiquid <==> quiet
            &&& r == Regime::Volatile <==> !quiet && wild
            &&& r == Regime::Trending <==> !quiet && !wild && strong && rising
            &&& r == Regime::Ranging <==> !quiet && !wild && !(strong && rising)
        }),
{
}

/// The strength of a trend is the gap of the averages in true ranges, and the ratio of the
/// volatilities is the short one over the long one, each to half a step.
pub proof fn law_strength_and_ratio(f: Features)
    requires
        f.rv_long >= 1,
        f.atr14_5m >= 1,
    ensures
        f.ema20_5m >= f.ema50_5m ==> -f.atr14_5m <= 2 * (trend_strength(f) * f.atr14_5m - (
        f.ema20_5m - f.ema50_5m) * ONE) <= f.atr14_5m,
        f.ema20_5m <= f.ema50_5m ==> -f.atr14_5m <= 2 * (trend_strength(f) * f.atr14_5m - (
        f.ema50_5m - f.ema20_5m) * ONE) <= f.atr14_5m,
        -f.rv_long <= 2 * (vol_ratio(f) * f.rv_long - f.rv_short * ONE) <= f.rv_long,
{
    crate::fixed::lemma_round_div_error(
        abs_of(f.ema20_5m - f.ema50_5m) * ONE,
        f.atr14_5m as int,
    );
    crate::fixed::lemma_round_div_error(f.rv_short * ONE, f.rv_long as int);
}

/// The averages are in rising order or in falling order, never both; a squeeze is a range
/// that is positive and under its threshold.
pub proof fn law_bias_and_squeeze(f: Features, t: RegimeThresholds)
    ensures
        htf_bullish(f) <==> f.ema200_1h < f.ema50_1h && f.ema50_1h < f.ema20_1h,
        bearish_bias(f) <==> f.ema200_1h > f.ema50_1h && f.ema50_1h > f.ema20_1h,
        !(htf_bullish(f) && bearish_bias(f)),
        vol_squeeze(f, t) <==> f.atr_ratio_5m > 0 && f.atr_ratio_5m < t.atr_ratio_squeeze,
{
}

} // verus!
