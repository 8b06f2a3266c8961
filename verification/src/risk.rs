//! Position sizing under the risk limits.
use crate::fixed::{
    abs_of, bounded, clamp_fixed, clamped, div_fixed, div_round, lemma_round_div_bounds, max_fixed,
    max_of, min_of, product, quotient, round_div, LIMIT, ONE,
};
use crate::money::{
    aligned, fits, near_sum, dec_add, dec_at_most, dec_div, dec_le, dec_mul, dec_string, dec_sub,
    dec_text, decimal_difference, decimal_product, decimal_quotient, decimal_sum, fixed_from_dec,
    is_plain, nearest_fixed, notional_dec, parts, plain, plain_dec, round_down_to_step_dec,
    stepped_down, tolerance_usdt, value, Dec, lemma_plain_value, lemma_value_sign, near_product,
    near_quotient, stepped_near,
};
use crate::regime::{regime_text, Regime};
use crate::sizing::{clears_minimum, ensure_min_notional_dec};
use crate::slack::{
    close, in_steps, lemma_aligned_value, lemma_cap_kept, lemma_cap_kept_unstepped,
    lemma_cap_shrinks, lemma_exact_product, lemma_has_worth, lemma_nearest, lemma_nearest_steps,
    lemma_no_step, lemma_nothing_shared, lemma_order, lemma_powers, lemma_product_worth,
    lemma_quotient_shares, lemma_risk_kept, lemma_risk_used, lemma_stepped, lemma_worth_steps,
    no_less, no_more, shared, used_up, worth, PARTS, STEP_PARTS, TENTH,
};
use crate::text::{lemma_pow10_add, lemma_pow10_positive, pow10};
use vstd::prelude::*;

verus! {

/// Whether a long entry may be made, and how large.
#[derive(Clone, Debug)]
pub enum RiskDecision {
    Allow { qty: i128, notional: i128, risk_usdt: i128, was_capped: bool, reason: String },
    Block { reason: String, hibernate: bool },
}

/// The content of a [`RiskDecision`].
pub enum RiskView {
    Allow { qty: int, notional: int, risk_usdt: int, was_capped: bool, reason: Seq<char> },
    Block { reason: Seq<char>, hibernate: bool },
}

impl View for RiskDecision {
    type V = RiskView;

    open spec fn view(&self) -> RiskView {
        match *self {
            RiskDecision::Allow { qty, notional, risk_usdt, was_capped, reason } => RiskView::Allow {
                qty: qty as int,
                notional: notional as int,
                risk_usdt: risk_usdt as int,
                was_capped,
                reason: reason@,
            },
            RiskDecision::Block { reason, hibernate } => RiskView::Block {
                reason: reason@,
                hibernate,
            },
        }
    }
}

/// A refusal.
fn block(reason: &str, hibernate: bool) -> (d: RiskDecision)
    ensures
        d@ == (RiskView::Block { reason: reason@, hibernate }),
{
    RiskDecision::Block { reason: String::from_str(reason), hibernate }
}

/// How far the equity has fallen from its peak, as a fraction of the peak.
pub open spec fn drawdown(peak: int, equity: int) -> int {
    if peak <= 0 {
        0
    } else {
        max_of(quotient(peak - equity, peak), 0)
    }
}

/// How far the equity has fallen from its peak, as a fraction of the peak; zero
/// where there is no peak or no fall.
pub fn drawdown_fraction(peak_equity_usdt: i128, equity_usdt: i128) -> (dd: i128)
    requires
        bounded(peak_equity_usdt as int),
        bounded(equity_usdt as int),
    ensures
        dd == drawdown(peak_equity_usdt as int, equity_usdt as int),
{
    if peak_equity_usdt <= 0 {
        return 0;
    }
    max_fixed(div_fixed(peak_equity_usdt - equity_usdt, peak_equity_usdt), 0)
}

/// Whether the equity has fallen from a peak by at least `percent` hundredths of
/// it.
pub open spec fn fallen(peak: int, equity: Option<i128>, percent: int) -> bool {
    equity is Some && peak > 0 && 100 * (peak - equity->0) >= percent * peak
}

/// The share of the equity that one trade may lose.
pub open spec fn base_risk(regime: Regime) -> int {
    match regime {
        Regime::Trending => 5_000_000_000,
        Regime::Volatile => 2_500_000_000,
        Regime::Ranging => 3_500_000_000,
        Regime::Illiquid => 0,
    }
}

/// The share of the equity that one trade may lose: 0.5% in a trend, 0.25% in a
/// volatile market, 0.35% in a range, nothing in an illiquid market.
pub fn risk_fraction_for_regime(regime: Regime) -> (r: i128)
    ensures
        r == base_risk(regime),
{
    match regime {
        Regime::Trending => 5_000_000_000,
        Regime::Volatile => 2_500_000_000,
        Regime::Ranging => 3_500_000_000,
        Regime::Illiquid => 0,
    }
}

/// The multiplier that a volatility ratio gives: `1 - (ratio - 1) / 2`, moved
/// into `0.5..=1`.
pub open spec fn atr_multiplier(atr_ratio: Option<i128>) -> int {
    match atr_ratio {
        Some(r) => if r <= 0 {
            ONE as int
        } else {
            clamped(
                ONE - min_of(round_div(max_of(r - ONE, 0), 2), ONE as int / 2),
                ONE as int / 2,
                ONE as int,
            )
        },
        None => ONE as int,
    }
}

/// A position-size multiplier between 0.5 and 1 that shrinks exposure when the
/// volatility is above its longer-term average.
///
/// | ratio | multiplier |
/// |-------|------------|
/// | ≤ 1.0 | 1.00       |
/// | 1.25  | 0.875      |
/// | 1.5   | 0.75       |
/// | ≥ 2.0 | 0.50       |
///
/// A ratio that is not a positive number (`None` stands for one that is no
/// number at all) leaves the size as it is.
pub fn atr_size_multiplier(atr_ratio: Option<i128>) -> (m: i128)
    requires
        atr_ratio is Some ==> bounded(atr_ratio->0 as int),
    ensures
        m == atr_multiplier(atr_ratio),
        ONE / 2 <= m <= ONE,
{
    match atr_ratio {
        Some(r) => {
            if r <= 0 {
                return ONE;
            }
            let excess: i128 = max_fixed(r - ONE, 0);
            let half: i128 = div_round(excess, 2);
            let reduction: i128 = if half <= ONE / 2 {
                half
            } else {
                ONE / 2
            };
            proof {
                lemma_round_div_bounds(excess as int, 2, excess as int);
            }
            clamp_fixed(ONE - reduction, ONE / 2, ONE)
        },
        None => ONE,
    }
}

/// Larger volatility never gives a larger size.
pub proof fn law_atr_multiplier_monotone(a: i128, b: i128)
    requires
        0 < a <= b,
    ensures
        atr_multiplier(Some(b)) <= atr_multiplier(Some(a)),
        ONE as int / 2 <= atr_multiplier(Some(a)) <= ONE,
{
    crate::fixed::lemma_round_div_monotone(max_of(a - ONE, 0), max_of(b - ONE, 0), 2);
    crate::fixed::lemma_round_div_monotone(0, max_of(a - ONE, 0), 2);
    crate::fixed::lemma_round_div_exact(0, 2);
}

/// The share of the equity that one trade may lose, as a decimal.
pub open spec fn base_share(regime: Regime) -> (int, nat) {
    match regime {
        Regime::Trending => (5, 3),
        Regime::Volatile => (25, 4),
        Regime::Ranging => (35, 4),
        Regime::Illiquid => (0, 0),
    }
}

/// The multiplier of the share: one where none is given or it is not positive.
pub open spec fn multiplier_of(multiplier: Option<i128>) -> int {
    match multiplier {
        Some(m) => if m > 0 {
            m as int
        } else {
            ONE as int
        },
        None => ONE as int,
    }
}

/// The share of the equity that one trade may lose, with the multiplier where it is
/// positive. Nothing is rounded.
pub open spec fn risk_share(regime: Regime, multiplier: Option<i128>) -> Option<(int, nat)> {
    if multiplier is Some && multiplier->0 > 0 {
        decimal_product(base_share(regime), plain(multiplier->0 as int))
    } else {
        Some(base_share(regime))
    }
}

/// A quarter of a share while the equity is 10% under its peak or more.
pub open spec fn throttled_share(share: (int, nat), peak_equity: int, equity: i128) -> Option<
    (int, nat),
> {
    if fallen(peak_equity, Some(equity), 10) {
        decimal_product(share, (25int, 2nat))
    } else {
        Some(share)
    }
}

/// Whether the size of trades is reduced: the equity is 10% under its peak or more.
pub fn is_throttled(peak_equity_usdt: i128, equity_usdt: i128) -> (r: bool)
    requires
        bounded(peak_equity_usdt as int),
        bounded(equity_usdt as int),
    ensures
        r == fallen(peak_equity_usdt as int, Some(equity_usdt), 10),
{
    peak_equity_usdt > 0 && 100 * (peak_equity_usdt - equity_usdt) >= 10 * peak_equity_usdt
}

/// The share of the equity that one trade may lose. See [`risk_share`].
pub fn share_at_risk(regime: Regime, multiplier: Option<i128>) -> (r: Option<Dec>)
    requires
        multiplier is Some ==> bounded(multiplier->0 as int),
    ensures
        parts(r) == risk_share(regime, multiplier),
        r is Some,
        r->0.wf(),
        r->0.scale <= 16,
        0 <= r->0.mantissa <= 35 * LIMIT,
        value(r->0@) == base_risk(regime) * multiplier_of(multiplier) * 10_000,
{
    let base: Dec = match regime {
        Regime::Trending => Dec { mantissa: 5, scale: 3 },
        Regime::Volatile => Dec { mantissa: 25, scale: 4 },
        Regime::Ranging => Dec { mantissa: 35, scale: 4 },
        Regime::Illiquid => Dec { mantissa: 0, scale: 0 },
    };
    proof {
        lemma_powers();
        lemma_base_value(regime);
    }
    if let Some(m) = multiplier {
        if m > 0 {
            let factor: Dec = plain_dec(m);
            proof {
                lemma_plain_value(factor@, m as int);
                let p = pow10((12 - factor.scale) as nat) as int;
                lemma_pow10_positive((12 - factor.scale) as nat);
                assert(0 < factor.mantissa <= m) by (nonlinear_arith)
                    requires
                        factor.mantissa * p == m,
                        p >= 1,
                        m > 0,
                ;
                assert(0 <= base.mantissa * factor.mantissa <= 35 * LIMIT) by (nonlinear_arith)
                    requires
                        0 <= base.mantissa <= 35,
                        0 < factor.mantissa <= LIMIT,
                ;
                lemma_exact_product(base@, factor@);
                let b = base_risk(regime);
                let u = STEP_PARTS as int;
                assert((b * u) * (m * u) == (b * m * 10_000) * PARTS) by (nonlinear_arith)
                    requires
                        u == 10_000_000_000_000_000,
                ;
                assert(0 * factor.mantissa == 0);
                lemma_zero_value();
            }
            return dec_mul(base, factor);
        }
    }
    Some(base)
}

/// The base share counts the share of the regime.
proof fn lemma_base_value(regime: Regime)
    ensures
        value(base_share(regime)) == base_risk(regime) * STEP_PARTS,
{
    lemma_powers();
    assert(pow10(25) == 10_000_000_000_000_000_000_000_000int && pow10(24)
        == 1_000_000_000_000_000_000_000_000int) by {
        assert(pow10(27) == 10 * pow10(26));
        assert(pow10(26) == 10 * pow10(25));
        assert(pow10(25) == 10 * pow10(24));
    }
    lemma_zero_value();
}

/// The share that one trade may lose while the equity is so far under its peak. See
/// [`throttled_share`].
pub fn share_after_throttle(share: Dec, peak_equity_usdt: i128, equity_usdt: i128) -> (r: Option<Dec>)
    requires
        share.scale <= 16,
        0 <= share.mantissa <= 35 * LIMIT,
        bounded(peak_equity_usdt as int),
        bounded(equity_usdt as int),
    ensures
        parts(r) == throttled_share(share@, peak_equity_usdt as int, equity_usdt),
        r is Some,
        r->0.wf(),
        4 * value(r->0@) == value(share@) * (if fallen(
            peak_equity_usdt as int,
            Some(equity_usdt),
            10,
        ) {
            1int
        } else {
            4
        }),
{
    if is_throttled(peak_equity_usdt, equity_usdt) {
        let quarter: Dec = Dec { mantissa: 25, scale: 2 };
        proof {
            lemma_powers();
            lemma_exact_product(share@, quarter@);
            assert(pow10(28) == 10 * pow10(27));
            assert(pow10(27) == 10 * pow10(26));
            let v = value((share.mantissa * 25, (share.scale + 2) as nat));
            assert(4 * value(quarter@) == PARTS);
            let w = value(share@);
            let q = value(quarter@);
            assert(4 * (w * q) == w * PARTS) by (nonlinear_arith)
                requires
                    4 * q == PARTS,
            ;
            lemma_zero_value();
            if share.mantissa == 0 {
                assert(w == 0) by (nonlinear_arith)
                    requires
                        w == 0 * pow10((28 - share.scale) as nat),
                ;
            }
        }
        dec_mul(share, quarter)
    } else {
        Some(share)
    }
}

/// Whether the account-wide limits refuse a new entry. An equity of `None` is no
/// number, and passes every limit.
pub open spec fn account_gate(
    regime: Regime,
    equity: Option<i128>,
    peak_equity: int,
    daily_start: int,
    session_pnl: int,
) -> Option<RiskView> {
    if equity is Some && equity->0 <= 0 {
        Some(RiskView::Block { reason: "No money left. We stop."@, hibernate: true })
    } else if equity is Some && daily_start > 0 && 50 * (daily_start - equity->0) >= daily_start {
        Some(
            RiskView::Block {
                reason: "We lost too much today. We rest until tomorrow."@,
                hibernate: true,
            },
        )
    } else if equity is Some && 100 * session_pnl < -equity->0 {
        Some(
            RiskView::Block {
                reason: "Session loss limit reached. Cooling down."@,
                hibernate: false,
            },
        )
    } else if fallen(peak_equity, equity, 15) {
        Some(RiskView::Block { reason: "Big drawdown. We sleep to survive."@, hibernate: true })
    } else if base_risk(regime) <= 0 {
        Some(
            RiskView::Block {
                reason: "Calculated risk limit for "@ + regime_text(regime)
                    + " is 0.00%. This is too low to trade."@,
                hibernate: false,
            },
        )
    } else {
        None
    }
}

/// Checks the account-wide limits: no money left, 2% lost today, 1% lost in this
/// session, 15% under the peak, nothing to risk. See [`account_gate`].
pub fn risk_gate(
    regime: Regime,
    equity_usdt: Option<i128>,
    peak_equity_usdt: i128,
    daily_loss_start_equity_usdt: i128,
    session_pnl_usdt: i128,
) -> (g: Option<RiskDecision>)
    requires
        equity_usdt is Some ==> bounded(equity_usdt->0 as int),
        bounded(peak_equity_usdt as int),
        bounded(daily_loss_start_equity_usdt as int),
        bounded(session_pnl_usdt as int),
    ensures
        view_of(g) == account_gate(
            regime,
            equity_usdt,
            peak_equity_usdt as int,
            daily_loss_start_equity_usdt as int,
            session_pnl_usdt as int,
        ),
        g is Some ==> g->0 is Block,
{
    let mut fallen_15: bool = false;
    if let Some(equity) = equity_usdt {
        if equity <= 0 {
            return Some(block("No money left. We stop.", true));
        }
        if daily_loss_start_equity_usdt > 0 {
            if 50 * (daily_loss_start_equity_usdt - equity) >= daily_loss_start_equity_usdt {
                return Some(block("We lost too much today. We rest until tomorrow.", true));
            }
        }
        if 100 * session_pnl_usdt < -equity {
            return Some(block("Session loss limit reached. Cooling down.", false));
        }
        if peak_equity_usdt > 0 {
            fallen_15 = 100 * (peak_equity_usdt - equity) >= 15 * peak_equity_usdt;
        }
    }
    if fallen_15 {
        return Some(block("Big drawdown. We sleep to survive.", true));
    }
    if risk_fraction_for_regime(regime) <= 0 {
        let mut reason: String = String::from_str("Calculated risk limit for ");
        reason.append(regime.name());
        reason.append(" is 0.00%. This is too low to trade.");
        return Some(RiskDecision::Block { reason, hibernate: false });
    }
    None
}

/// A quantity, its value, and whether the cap on one trade made it smaller.
#[derive(Clone, Copy, Debug)]
pub struct CappedSize {
    pub qty: Dec,
    pub notional: Dec,
    pub was_capped: bool,
}

/// The size after the cap, and whether the cap was applied: where the order is
/// worth more than a positive cap, the quantity that the cap buys, which is zero
/// where the cap buys less than one step. `None` where the arithmetic overflows.
pub open spec fn capped_size(
    entry: (int, nat),
    step: (int, nat),
    qty: (int, nat),
    notional: (int, nat),
    cap: Option<i128>,
) -> Option<((int, nat), (int, nat), bool)> {
    if cap is Some && cap->0 > 0 && !dec_at_most(notional, plain(cap->0 as int)) {
        match decimal_quotient(plain(cap->0 as int), entry) {
            Some(raw) => match stepped_down(raw, step) {
                Some(small) => if small.0 > 0 {
                    match decimal_product(entry, small) {
                        Some(n) => Some((small, n, true)),
                        None => None,
                    }
                } else {
                    Some(((0int, 0nat), (0int, 0nat), true))
                },
                None => None,
            },
            None => None,
        }
    } else {
        Some((qty, notional, false))
    }
}

/// Zero is worth nothing.
proof fn lemma_zero_value()
    ensures
        value((0int, 0nat)) == 0,
{
    assert(0 * pow10(28) == 0) by (nonlinear_arith);
}

/// How a capped quantity and its value come about: the quantity is in whole steps, and
/// what the cap buys.
pub open spec fn capped_near(
    e: int,
    c: int,
    step: (int, nat),
    qty: (int, nat),
    notional: (int, nat),
) -> bool {
    &&& value(notional) <= c + 1_000_000_000_000_000
    &&& step.0 > 0 ==> exists|ks: int| #[trigger]
        cap_steps(e, c, value(qty), ks, value(step))
}

/// Whether `ks` are the whole steps of a quantity, worth no more than the cap and less than
/// one step under it.
pub open spec fn cap_steps(e: int, c: int, z: int, ks: int, s: int) -> bool {
    &&& close(z, ks)
    &&& ks > 0
    &&& exists|k: int| ks == #[trigger] (k * s)
    &&& e * ks <= c * PARTS + 1_000_000_000_000_000_000_000_000_000_000_000_000_000_000
    &&& c * PARTS <= (ks + s) * e + 1_000_000_000_000_000_000_000_000_000_000_000_000_000_000
}

/// What a cap buys.
proof fn lemma_capped(
    cap: (int, nat),
    entry: (int, nat),
    step: (int, nat),
    raw: (int, nat),
    small: (int, nat),
    n: (int, nat),
)
    requires
        0 < value(cap) <= LIMIT * STEP_PARTS,
        0 < value(entry) <= LIMIT * STEP_PARTS,
        entry.1 <= 28,
        step.1 <= 28,
        raw.1 <= 28,
        small.1 <= 28,
        small.0 > 0,
        near_quotient(cap, entry, raw),
        step.0 > 0 ==> stepped_near(raw, step, decimal_quotient(raw, step)->0, small),
        step.0 <= 0 ==> small == raw,
        near_product(entry, small, n),
    ensures
        capped_near(value(entry), value(cap), step, small, n),
{
    let e = value(entry);
    let c = value(cap);
    let x = value(raw);
    let z = value(small);
    lemma_value_sign(entry);
    lemma_value_sign(small);
    lemma_value_sign(raw);
    lemma_product_worth(entry, small, n);
    if step.0 > 0 {
        let ks = lemma_stepped(raw, step, decimal_quotient(raw, step)->0, small);
        assert(x > 0);
        lemma_quotient_shares(cap, entry, raw);
        lemma_cap_kept(c, e, x, ks, z, value(n));
        lemma_risk_used(ks, value(step), x, e, c);
        assert(cap_steps(e, c, z, ks, value(step)));
    } else {
        lemma_quotient_shares(cap, entry, raw);
        lemma_cap_kept_unstepped(c, e, x, value(n));
    }
}

/// A cap that buys nothing is less than a step is worth, but for a small part of a step.
proof fn lemma_cap_under_a_step(
    cap: (int, nat),
    entry: (int, nat),
    step: (int, nat),
    raw: (int, nat),
    small: (int, nat),
)
    requires
        0 < value(cap) <= LIMIT * STEP_PARTS,
        0 < value(entry) <= LIMIT * STEP_PARTS,
        value(step) >= STEP_PARTS,
        entry.1 <= 28,
        step.1 <= 28,
        raw.1 <= 28,
        small.1 <= 28,
        small.0 <= 0,
        near_quotient(cap, entry, raw),
        stepped_near(raw, step, decimal_quotient(raw, step)->0, small),
    ensures
        value(cap) * PARTS <= value(step) * value(entry)
            + 1_000_000_000_000_000_000_000_000_000_000_000_000_000_000,
{
    let e = value(entry);
    let s = value(step);
    lemma_value_sign(entry);
    lemma_value_sign(raw);
    if value(raw) > 0 {
        lemma_quotient_shares(cap, entry, raw);
        lemma_no_step(raw, step, decimal_quotient(raw, step)->0, small);
        lemma_risk_used(0, s, value(raw), e, value(cap));
        assert((0 + s) * e == s * e);
    } else {
        lemma_nothing_shared(cap, entry, raw);
        assert(e <= s * e) by (nonlinear_arith)
            requires
                e > 0,
                s >= 1,
        ;
    }
}

/// Applies the cap on the value of one trade. See [`capped_size`].
pub fn cap_size(entry: Dec, step: Dec, qty: Dec, notional: Dec, cap: Option<i128>) -> (r: Option<
    CappedSize,
>)
    requires
        entry.wf(),
        step.wf(),
        qty.wf(),
        notional.wf(),
        cap is Some ==> bounded(cap->0 as int),
    ensures
        match r {
            Some(t) => capped_size(entry@, step@, qty@, notional@, cap) == Some(
                (t.qty@, t.notional@, t.was_capped),
            ) && t.qty.wf() && t.notional.wf(),
            None => capped_size(entry@, step@, qty@, notional@, cap) is None,
        },
        r is Some && r->0.was_capped ==> cap is Some && cap->0 > 0 && value(notional@) > cap->0
            * STEP_PARTS,
        r is Some && r->0.was_capped && r->0.qty.mantissa > 0 ==> near_product(
            entry@,
            r->0.qty@,
            r->0.notional@,
        ) && decimal_product(entry@, r->0.qty@) == Some(r->0.notional@),
        r is Some && r->0.was_capped && r->0.qty.mantissa > 0 && 0 < value(entry@) <= LIMIT
            * STEP_PARTS ==> capped_near(
            value(entry@),
            cap->0 * STEP_PARTS,
            step@,
            r->0.qty@,
            r->0.notional@,
        ),
        r is Some && r->0.was_capped && r->0.qty.mantissa <= 0 && 0 < value(entry@) <= LIMIT
            * STEP_PARTS && value(step@) >= STEP_PARTS ==> cap->0 * STEP_PARTS * PARTS <= value(step@)
            * value(entry@) + 1_000_000_000_000_000_000_000_000_000_000_000_000_000_000,
        r is Some && !r->0.was_capped ==> r->0.qty == qty && r->0.notional == notional,
        r is Some && !r->0.was_capped && cap is Some && cap->0 > 0 ==> value(notional@) <= cap->0
            * STEP_PARTS,
{
    if let Some(c) = cap {
        if c > 0 {
            let cap_d: Dec = plain_dec(c);
            proof {
                lemma_plain_value(cap_d@, c as int);
                lemma_order(notional@, cap_d@);
            }
            if !dec_le(notional, cap_d) {
                let raw: Dec = match dec_div(cap_d, entry) {
                    Some(d) => d,
                    None => return None,
                };
                let small: Dec = match round_down_to_step_dec(raw, step) {
                    Some(d) => d,
                    None => return None,
                };
                if small.mantissa > 0 {
                    return match notional_dec(entry, small) {
                        Some(n) => {
                            proof {
                                if 0 < value(entry@) <= LIMIT * STEP_PARTS {
                                    lemma_capped(cap_d@, entry@, step@, raw@, small@, n@);
                                }
                            }
                            Some(CappedSize { qty: small, notional: n, was_capped: true })
                        },
                        None => None,
                    };
                }
                proof {
                    if 0 < value(entry@) <= LIMIT * STEP_PARTS && value(step@) >= STEP_PARTS {
                        lemma_value_sign(step@);
                        lemma_cap_under_a_step(cap_d@, entry@, step@, raw@, small@);
                    }
                }
                let none: Dec = Dec { mantissa: 0, scale: 0 };
                return Some(CappedSize { qty: none, notional: none, was_capped: true });
            }
        }
    }
    Some(CappedSize { qty, notional, was_capped: false })
}

/// What the last two checks say of a size: it has to clear the exchange's
/// minimum, and 101% of its value has to be free. `None` where the arithmetic
/// overflows, or an allowed size cannot be told as fixed-point numbers.
pub open spec fn approved_size(
    entry: (int, nat),
    qty: (int, nat),
    notional: (int, nat),
    risk: (int, nat),
    was_capped: bool,
    min_notional: (int, nat),
    usdt_free: (int, nat),
) -> Option<RiskView> {
    match clears_minimum(entry, qty, min_notional) {
        None => None,
        Some(false) => Some(
            RiskView::Block {
                reason: "Trade size ("@ + dec_text(notional)
                    + " USDT) is smaller than Binance's minimum requirement ("@ + dec_text(
                    min_notional,
                ) + " USDT)."@,
                hibernate: false,
            },
        ),
        Some(true) => match decimal_product(notional, (101int, 2nat)) {
            None => None,
            Some(needed) => match decimal_sum(usdt_free, (1int, 12nat)) {
                None => None,
                Some(have) => if dec_at_most(needed, have) {
                    allowed_size(qty, notional, risk, was_capped)
                } else {
                    Some(
                        RiskView::Block {
                            reason: "Trade requires "@ + dec_text(needed)
                                + " USDT (including buffer), but only "@ + dec_text(usdt_free)
                                + " USDT is available."@,
                            hibernate: false,
                        },
                    )
                },
            },
        },
    }
}

/// An allowed size as fixed-point numbers. `None` where one of them is out of
/// range, or the quantity or its value is nearer to zero than to the smallest
/// number above it.
pub open spec fn allowed_size(
    qty: (int, nat),
    notional: (int, nat),
    risk: (int, nat),
    was_capped: bool,
) -> Option<RiskView> {
    if bounded(nearest_fixed(qty)) && bounded(nearest_fixed(notional)) && bounded(
        nearest_fixed(risk),
    ) && nearest_fixed(qty) > 0 && nearest_fixed(notional) > 0 {
        Some(
            RiskView::Allow {
                qty: nearest_fixed(qty),
                notional: nearest_fixed(notional),
                risk_usdt: nearest_fixed(risk),
                was_capped,
                reason: "Size is safe for your pocket."@,
            },
        )
    } else {
        None
    }
}

/// Checks a size against the exchange's minimum and the free balance. See
/// [`approved_size`].
pub fn approve_size(
    entry: Dec,
    qty: Dec,
    notional: Dec,
    risk_usdt: Dec,
    was_capped: bool,
    min_notional: Dec,
    usdt_free: Dec,
) -> (r: Option<RiskDecision>)
    requires
        entry.wf(),
        qty.wf(),
        notional.wf(),
        risk_usdt.wf(),
        min_notional.wf(),
        usdt_free.wf(),
    ensures
        view_of(r) == approved_size(
            entry@,
            qty@,
            notional@,
            risk_usdt@,
            was_capped,
            min_notional@,
            usdt_free@,
        ),
        in_range(r),
        is_allowed(r) && decimal_product(entry@, qty@) == Some(notional@) ==> value(min_notional@)
            <= value(notional@) + STEP_PARTS + 30_000_000_000_000,
        is_allowed(r) && usdt_free.scale <= 12 && -LIMIT * STEP_PARTS <= value(usdt_free@) <= LIMIT
            * STEP_PARTS ==> 101 * value(notional@) <= 100 * (value(usdt_free@) + STEP_PARTS
            + 30_000_000_000_000),
        is_refused(r) && decimal_product(entry@, qty@) == Some(notional@) && value(notional@) > 0
            && usdt_free.scale <= 12 && -LIMIT * STEP_PARTS <= value(usdt_free@) <= LIMIT
            * STEP_PARTS ==> value(notional@) < value(min_notional@) || 101 * value(notional@) > 100
            * value(usdt_free@),
{
    match ensure_min_notional_dec(entry, qty, min_notional) {
        None => return None,
        Some(clears) => {
            if !clears {
                proof {
                    lemma_value_sign(notional@);
                    if decimal_product(entry@, qty@) == Some(notional@) && 0 < value(notional@)
                        <= LIMIT * STEP_PARTS {
                        lemma_under_minimum(
                            notional@,
                            decimal_sum(notional@, (1int, 12nat))->0,
                        );
                    }
                }
                let mut reason: String = String::from_str("Trade size (");
                reason.append(dec_string(notional).as_str());
                reason.append(" USDT) is smaller than Binance's minimum requirement (");
                reason.append(dec_string(min_notional).as_str());
                reason.append(" USDT).");
                return Some(RiskDecision::Block { reason, hibernate: false });
            }
        },
    }
    let needed: Dec = match dec_mul(notional, Dec { mantissa: 101, scale: 2 }) {
        Some(d) => d,
        None => return None,
    };
    let have: Dec = match dec_add(usdt_free, tolerance_usdt()) {
        Some(d) => d,
        None => return None,
    };
    if !dec_le(needed, have) {
        proof {
            lemma_order(needed@, have@);
            if usdt_free.scale <= 12 && -LIMIT * STEP_PARTS <= value(usdt_free@) <= LIMIT
                * STEP_PARTS && 0 < value(notional@) <= LIMIT * STEP_PARTS {
                lemma_free(usdt_free, have);
                lemma_too_dear(notional@, needed@, value(usdt_free@));
            }
        }
        let mut reason: String = String::from_str("Trade requires ");
        reason.append(dec_string(needed).as_str());
        reason.append(" USDT (including buffer), but only ");
        reason.append(dec_string(usdt_free).as_str());
        reason.append(" USDT is available.");
        return Some(RiskDecision::Block { reason, hibernate: false });
    }
    let qty_d: Dec = qty;
    let worth_d: Dec = notional;
    let qty: i128 = match fixed_from_dec(qty) {
        Some(v) => v,
        None => return None,
    };
    let notional: i128 = match fixed_from_dec(notional) {
        Some(v) => v,
        None => return None,
    };
    let risk_usdt: i128 = match fixed_from_dec(risk_usdt) {
        Some(v) => v,
        None => return None,
    };
    if qty <= 0 || notional <= 0 {
        return None;
    }
    proof {
        lemma_nearest(worth_d@);
        lemma_value_sign(worth_d@);
        if decimal_product(entry@, qty_d@) == Some(worth_d@) {
            lemma_minimum(worth_d@, decimal_sum(worth_d@, (1int, 12nat))->0);
        }
        lemma_order(needed@, have@);
        if usdt_free.scale <= 12 && -LIMIT * STEP_PARTS <= value(usdt_free@) <= LIMIT * STEP_PARTS {
            lemma_free(usdt_free, have);
            lemma_affordable(worth_d@, needed@, value(have@));
        }
    }
    Some(
        RiskDecision::Allow {
            qty,
            notional,
            risk_usdt,
            was_capped,
            reason: String::from_str("Size is safe for your pocket."),
        },
    )
}

/// Whether a decision allows a trade.
pub open spec fn is_allowed(d: Option<RiskDecision>) -> bool {
    d is Some && d->0 is Allow
}

/// Whether a decision blocks a trade.
pub open spec fn is_refused(d: Option<RiskDecision>) -> bool {
    d is Some && d->0 is Block
}

/// A value with the tolerance is above the value.
proof fn lemma_under_minimum(n: (int, nat), m: (int, nat))
    requires
        0 < value(n) <= LIMIT * STEP_PARTS,
        near_sum(n, (1int, 12nat), m),
    ensures
        value(m) > value(n),
{
    lemma_powers();
    assert(value((1int, 12nat)) == STEP_PARTS);
}

/// A value of which 101% is not there with the tolerance is more than is there.
proof fn lemma_too_dear(n: (int, nat), needed: (int, nat), free: int)
    requires
        0 < value(n) <= LIMIT * STEP_PARTS,
        near_product(n, (101int, 2nat), needed),
        value(needed) > free + STEP_PARTS,
        -LIMIT * STEP_PARTS <= free <= LIMIT * STEP_PARTS,
    ensures
        101 * value(n) > 100 * free,
{
    lemma_powers();
    assert(pow10(27) == 10 * pow10(26));
    let w = value(n);
    let k = value((101int, 2nat));
    assert(k == 10_100_000_000_000_000_000_000_000_000int);
    assert(w * k == w * 10_100_000_000_000_000_000_000_000_000int);
}

/// A value that reaches the minimum with the tolerance is no more than that below it,
/// but for rounding.
proof fn lemma_minimum(n: (int, nat), m: (int, nat))
    requires
        0 < value(n) <= 2 * LIMIT * STEP_PARTS,
        near_sum(n, (1int, 12nat), m),
    ensures
        value(m) <= value(n) + STEP_PARTS + 30_000_000_000_000,
{
    lemma_powers();
    assert(value((1int, 12nat)) == STEP_PARTS);
}

/// The free balance with the tolerance is exact.
proof fn lemma_free(free: Dec, have: Dec)
    requires
        free.scale <= 12,
        -LIMIT * STEP_PARTS <= value(free@) <= LIMIT * STEP_PARTS,
        ({
            let s = crate::money::finer(free@, (1int, 12nat));
            let x = aligned(free@, s);
            let y = aligned((1int, 12nat), s);
            fits(x) && fits(y) && fits(x + y) ==> have.scale <= s && aligned(have@, s) == x + y
        }),
    ensures
        value(have@) == value(free@) + STEP_PARTS,
{
    lemma_powers();
    assert(pow10(0) == 1);
    let x = aligned(free@, 12);
    assert(x * pow10(0) == x) by (nonlinear_arith)
        requires
            pow10(0) == 1,
    ;
    lemma_aligned_value(free@, 12, x);
    assert(aligned((1int, 12nat), 12) == 1);
    assert((x + 1) * pow10(0) == x + 1) by (nonlinear_arith)
        requires
            pow10(0) == 1,
    ;
    lemma_aligned_value(have@, 12, x + 1);
}

/// A value of which 101% is there is no more than that, but for rounding.
proof fn lemma_affordable(n: (int, nat), needed: (int, nat), have: int)
    requires
        0 < value(n) <= 2 * LIMIT * STEP_PARTS,
        near_product(n, (101int, 2nat), needed),
        value(needed) <= have <= 2 * LIMIT * STEP_PARTS,
    ensures
        101 * value(n) <= 100 * (have + 30_000_000_000_000),
{
    lemma_powers();
    assert(pow10(27) == 10 * pow10(26));
    let w = value(n);
    let k = value((101int, 2nat));
    assert(k == 10_100_000_000_000_000_000_000_000_000int);
    assert(w * k == w * 10_100_000_000_000_000_000_000_000_000int);
}

/// The content of an optional decision.
pub open spec fn view_of(r: Option<RiskDecision>) -> Option<RiskView> {
    match r {
        Some(d) => Some(d@),
        None => None,
    }
}

/// The refusal of a value that is no number.
pub open spec fn bad_value(
    equity: Option<i128>,
    usdt_free: Option<i128>,
    entry: Option<i128>,
    stop: Option<i128>,
    step: Option<i128>,
    min_notional: Option<i128>,
) -> Option<RiskView> {
    if equity is None {
        Some(RiskView::Block { reason: "Bad equity value. We stop."@, hibernate: true })
    } else if usdt_free is None {
        Some(RiskView::Block { reason: "Bad wallet value. We stop."@, hibernate: true })
    } else if entry is None {
        Some(RiskView::Block { reason: "Bad entry price. We skip."@, hibernate: false })
    } else if stop is None {
        Some(RiskView::Block { reason: "Bad stop price. We skip."@, hibernate: false })
    } else if step is None {
        Some(RiskView::Block { reason: "Bad step size. We skip."@, hibernate: false })
    } else if min_notional is None {
        Some(RiskView::Block { reason: "Bad min_notional. We skip."@, hibernate: false })
    } else {
        None
    }
}

/// The size of an entry that risks a share of the equity between the entry and the
/// stop. `None` where the decimal arithmetic overflows.
pub open spec fn sized_entry(
    share: (int, nat),
    equity: int,
    usdt_free: int,
    entry: int,
    stop: int,
    step: int,
    min_notional: int,
    cap: Option<i128>,
) -> Option<RiskView> {
    match decimal_product(plain(equity), share) {
        None => None,
        Some(risk) => match decimal_difference(plain(entry), plain(stop)) {
            None => None,
            Some(distance) => if distance.0 <= 0 {
                Some(
                    RiskView::Block {
                        reason: "Stop price is not below entry. We skip."@,
                        hibernate: false,
                    },
                )
            } else {
                match decimal_quotient(risk, distance) {
                    None => None,
                    Some(raw) => if raw.0 <= 0 {
                        Some(
                            RiskView::Block {
                                reason: "Bad position size. We skip."@,
                                hibernate: false,
                            },
                        )
                    } else {
                        sized_quantity(raw, risk, usdt_free, entry, step, min_notional, cap)
                    },
                }
            },
        },
    }
}

/// What becomes of a raw quantity: it is rounded down to the step, capped, and
/// checked.
pub open spec fn sized_quantity(
    raw: (int, nat),
    risk: (int, nat),
    usdt_free: int,
    entry: int,
    step: int,
    min_notional: int,
    cap: Option<i128>,
) -> Option<RiskView> {
    match stepped_down(raw, plain(step)) {
        None => None,
        Some(qty) => if qty.0 <= 0 {
            Some(
                RiskView::Block {
                    reason: "Size became too small after rounding. We wait."@,
                    hibernate: false,
                },
            )
        } else {
            match decimal_product(plain(entry), qty) {
                None => None,
                Some(n) => match capped_size(plain(entry), plain(step), qty, n, cap) {
                    None => None,
                    Some(t) => if t.0.0 <= 0 {
                        Some(
                            RiskView::Block {
                                reason: "Size became too small after rounding. We wait."@,
                                hibernate: false,
                            },
                        )
                    } else {
                        approved_size(
                            plain(entry),
                            t.0,
                            t.1,
                            risk,
                            t.2,
                            plain(min_notional),
                            plain(usdt_free),
                        )
                    },
                },
            }
        },
    }
}

/// Whether a decision allows a trade of more than a positive cap.
pub open spec fn over_cap(d: Option<RiskDecision>, cap: Option<i128>) -> bool {
    match d {
        Some(RiskDecision::Allow { notional, .. }) => cap is Some && cap->0 > 0 && notional > cap->0,
        _ => false,
    }
}

/// What holds of an allowed size, apart from what it risks: it is bought at a price,
/// reaches the minimum and can be paid with one percent to spare, each to two steps of
/// `10^-12`; it is a whole number of steps of the exchange, and its value is its price
/// times its quantity to one step of `10^-12`.
pub open spec fn fair_size(
    qty: int,
    notional: int,
    usdt_free: int,
    entry: int,
    step: int,
    min_notional: int,
) -> bool {
    &&& entry > 0
    &&& min_notional <= notional + 2
    &&& 101 * notional <= 100 * (usdt_free + 2)
    &&& step > 0 ==> qty % step == 0
    &&& step > 0 ==> abs_of(notional * ONE - entry * qty) < ONE
}

/// Whether `qty` is no more than `x` allows, by way of `ks`, the steps of the size
/// before the cap. All are in parts of `10^-28`, `e` is the price and `s` the step.
pub open spec fn raw_kept(qty: int, ks: int, x: int, e: int, s: int, was_capped: bool) -> bool {
    &&& no_more(ks, x)
    &&& no_less(ks, s, x)
    &&& !was_capped ==> qty == ks
    &&& qty <= ks || e * s <= 4_000_000_000_000_000_000_000_000_000_000_000_000_000_000
    &&& e * (qty - ks) <= 4_000_000_000_000_000_000_000_000_000_000_000_000_000_000
}

/// Whether `z` is the quantity that is tried and `w` its value: it is what the raw quantity
/// `x` holds in whole steps, or what the cap buys in whole steps. All but the cap are in
/// parts of `10^-28`, `e` is the price and `s` the step.
pub open spec fn tried(z: int, w: int, x: int, e: int, s: int, cap: Option<i128>) -> bool {
    &&& worth(w, e, z)
    &&& (exists|ks: int| #[trigger] in_steps(z, ks, s, x)) || (cap is Some && exists|ks: int|
        #[trigger]
        cap_steps(e, cap->0 * STEP_PARTS, z, ks, s))
}

/// Whether a raw quantity of `x` parts is refused for cause: it is less than a step, or the
/// cap is worth less than a step, or the quantity that is tried is worth less than the
/// minimum or cannot be paid with one percent to spare.
pub open spec fn fairly_refused(
    x: int,
    entry: int,
    step: int,
    min_notional: int,
    usdt_free: int,
    cap: Option<i128>,
) -> bool {
    ||| x * TENTH <= (step * STEP_PARTS) * (TENTH + 2)
    ||| cap is Some && cap->0 > 0 && step * entry >= (cap->0 - 1) * ONE
    ||| exists|z: int, w: int| #[trigger]
        tried(z, w, x, entry * STEP_PARTS, step * STEP_PARTS, cap) && (w < min_notional * STEP_PARTS
            || 101 * w > 100 * (usdt_free * STEP_PARTS))
}

/// What holds of an allowed size in whole steps.
proof fn lemma_fair_steps(entry: int, step: int, z: (int, nat), w: (int, nat), ks: int)
    requires
        0 < entry <= LIMIT,
        step > 0,
        z.1 <= 28,
        w.1 <= 28,
        0 < nearest_fixed(z) <= LIMIT,
        0 < nearest_fixed(w) <= LIMIT,
        worth(value(w), entry * STEP_PARTS, value(z)),
        close(value(z), ks),
        exists|k: int| ks == #[trigger] (k * (step * STEP_PARTS)),
    ensures
        nearest_fixed(z) % step == 0,
        nearest_fixed(z) * STEP_PARTS == ks,
        abs_of(nearest_fixed(w) * ONE - entry * nearest_fixed(z)) < ONE,
{
    lemma_nearest_steps(z, ks, step);
    lemma_nearest(z);
    lemma_nearest(w);
    let q = nearest_fixed(z);
    let n = nearest_fixed(w);
    lemma_worth_steps(value(w), entry * STEP_PARTS, value(z), ks);
    let eq = entry * q;
    assert((entry * STEP_PARTS) * ks == eq * STEP_PARTS * STEP_PARTS) by (nonlinear_arith)
        requires
            ks == q * STEP_PARTS,
            eq == entry * q,
    ;
}

/// Rounds a raw quantity to the step, caps it and checks it. See
/// [`sized_quantity`].
pub fn size_quantity(
    raw: Dec,
    risk_usdt: Dec,
    usdt_free: i128,
    entry_price: i128,
    step_size: i128,
    min_notional: i128,
    max_notional_cap_usdt: Option<i128>,
) -> (d: Option<RiskDecision>)
    requires
        raw.wf(),
        risk_usdt.wf(),
        bounded(usdt_free as int),
        bounded(entry_price as int),
        bounded(step_size as int),
        bounded(min_notional as int),
        max_notional_cap_usdt is Some ==> bounded(max_notional_cap_usdt->0 as int),
    ensures
        view_of(d) == sized_quantity(
            raw@,
            risk_usdt@,
            usdt_free as int,
            entry_price as int,
            step_size as int,
            min_notional as int,
            max_notional_cap_usdt,
        ),
        !over_cap(d, max_notional_cap_usdt),
        in_range(d),
        match d {
            Some(RiskDecision::Allow { qty, notional, was_capped, .. }) => fair_size(
                qty as int,
                notional as int,
                usdt_free as int,
                entry_price as int,
                step_size as int,
                min_notional as int,
            ) && (step_size > 0 ==> exists|ks: int| #[trigger]
                raw_kept(
                    qty * STEP_PARTS,
                    ks,
                    value(raw@),
                    entry_price * STEP_PARTS,
                    step_size * STEP_PARTS,
                    was_capped,
                )) && (step_size > 0 && was_capped ==> max_notional_cap_usdt is Some && (qty
                + step_size) * entry_price >= (max_notional_cap_usdt->0 - 1) * ONE),
            _ => true,
        },
        is_refused(d) && step_size > 0 && entry_price > 0 && raw.mantissa > 0 ==> fairly_refused(
            value(raw@),
            entry_price as int,
            step_size as int,
            min_notional as int,
            usdt_free as int,
            max_notional_cap_usdt,
        ),
{
    let entry_d: Dec = plain_dec(entry_price);
    let step_d: Dec = plain_dec(step_size);
    let qty_d: Dec = match round_down_to_step_dec(raw, step_d) {
        Some(q) => q,
        None => return None,
    };
    if qty_d.mantissa <= 0 {
        proof {
            if step_size > 0 && raw.mantissa > 0 {
                lemma_plain_value(step_d@, step_size as int);
                lemma_value_sign(step_d@);
                lemma_value_sign(raw@);
                lemma_no_step(raw@, step_d@, decimal_quotient(raw@, step_d@)->0, qty_d@);
            }
        }
        return Some(block("Size became too small after rounding. We wait.", false));
    }
    let notional_d: Dec = match notional_dec(entry_d, qty_d) {
        Some(n) => n,
        None => return None,
    };
    let size: CappedSize = match cap_size(
        entry_d,
        step_d,
        qty_d,
        notional_d,
        max_notional_cap_usdt,
    ) {
        Some(t) => t,
        None => return None,
    };
    if size.qty.mantissa <= 0 {
        proof {
            if step_size > 0 && entry_price > 0 {
                lemma_plain_value(entry_d@, entry_price as int);
                lemma_plain_value(step_d@, step_size as int);
                lemma_in_steps(
                    step_size as int,
                    entry_price as int,
                    value(step_d@),
                    value(entry_d@),
                );
            }
        }
        return Some(block("Size became too small after rounding. We wait.", false));
    }
    let minimum_d: Dec = plain_dec(min_notional);
    let free_d: Dec = plain_dec(usdt_free);
    let d: Option<RiskDecision> = approve_size(
        entry_d,
        size.qty,
        size.notional,
        risk_usdt,
        size.was_capped,
        minimum_d,
        free_d,
    );
    proof {
        lemma_plain_value(entry_d@, entry_price as int);
        lemma_plain_value(step_d@, step_size as int);
        lemma_plain_value(minimum_d@, min_notional as int);
        lemma_plain_value(free_d@, usdt_free as int);
        lemma_value_sign(step_d@);
        if is_refused(d) && step_size > 0 && entry_price > 0 && raw.mantissa > 0 {
            let e = entry_price * STEP_PARTS;
            let s = step_size * STEP_PARTS;
            let z = value(size.qty@);
            let w = value(size.notional@);
            let cap = max_notional_cap_usdt;
            lemma_product_worth(entry_d@, size.qty@, size.notional@);
            lemma_value_sign(size.qty@);
            if size.was_capped {
                let ks = choose|ks: int| #[trigger] cap_steps(e, cap->0 * STEP_PARTS, z, ks, s);
                assert(cap_steps(e, cap->0 * STEP_PARTS, z, ks, s));
                lemma_steps_at_least(ks, s);
                lemma_has_worth(w, e, z, ks);
            } else {
                let ks = lemma_stepped(
                    raw@,
                    step_d@,
                    decimal_quotient(raw@, step_d@)->0,
                    qty_d@,
                );
                assert(in_steps(z, ks, s, value(raw@)));
                lemma_steps_at_least(ks, s);
                lemma_has_worth(w, e, z, ks);
            }
            assert(tried(z, w, value(raw@), e, s, cap));
        }
        if is_allowed(d) {
            lemma_nearest(size.notional@);
            lemma_product_worth(entry_d@, size.qty@, size.notional@);
            lemma_value_sign(size.qty@);
            lemma_entry_positive(entry_price as int, value(size.qty@), value(size.notional@));
            if step_size > 0 {
                let ks0 = lemma_stepped(
                    raw@,
                    step_d@,
                    decimal_quotient(raw@, step_d@)->0,
                    qty_d@,
                );
                let e = entry_price * STEP_PARTS;
                if size.was_capped {
                    let c = max_notional_cap_usdt->0 * STEP_PARTS;
                    let ks = choose|ks: int| #[trigger]
                        cap_steps(e, c, value(size.qty@), ks, value(step_d@));
                    lemma_fair_steps(
                        entry_price as int,
                        step_size as int,
                        size.qty@,
                        size.notional@,
                        ks,
                    );
                    lemma_product_worth(entry_d@, qty_d@, notional_d@);
                    lemma_value_sign(qty_d@);
                    lemma_cap_shrinks(c, e, ks, value(qty_d@), ks0, value(notional_d@));
                    lemma_one_more_step(ks, ks0, step_size * STEP_PARTS, e);
                    lemma_in_steps(
                        nearest_fixed(size.qty@) + step_size,
                        entry_price as int,
                        ks + step_size * STEP_PARTS,
                        e,
                    );
                    assert(raw_kept(ks, ks0, value(raw@), e, step_size * STEP_PARTS, true));
                } else {
                    lemma_fair_steps(
                        entry_price as int,
                        step_size as int,
                        size.qty@,
                        size.notional@,
                        ks0,
                    );
                    assert(raw_kept(ks0, ks0, value(raw@), e, step_size * STEP_PARTS, false));
                }
            }
        }
    }
    d
}

/// A positive number of steps is at least one step.
proof fn lemma_steps_at_least(ks: int, s: int)
    requires
        ks > 0,
        s > 0,
        exists|k: int| ks == #[trigger] (k * s),
    ensures
        ks >= s,
{
    let k = choose|k: int| ks == #[trigger] (k * s);
    assert(k * s >= s) by (nonlinear_arith)
        requires
            k * s > 0,
            s > 0,
    ;
}

/// A product in parts is that of the numbers.
proof fn lemma_in_steps(a: int, b: int, x: int, y: int)
    requires
        x == a * STEP_PARTS,
        y == b * STEP_PARTS,
    ensures
        x * y == (a * b) * 100_000_000_000_000_000_000_000_000_000_000,
{
    assert(x * y == (a * b) * (STEP_PARTS * STEP_PARTS)) by (nonlinear_arith)
        requires
            x == a * STEP_PARTS,
            y == b * STEP_PARTS,
    ;
}

/// Of two whole numbers of steps the larger one has at least one step more.
proof fn lemma_one_more_step(a: int, b: int, s: int, e: int)
    requires
        exists|k: int| a == #[trigger] (k * s),
        exists|k: int| b == #[trigger] (k * s),
        s > 0,
        e > 0,
    ensures
        a <= b || e * s <= e * (a - b),
{
    let j = choose|k: int| a == #[trigger] (k * s);
    let k = choose|k: int| b == #[trigger] (k * s);
    if a > b {
        assert(j > k) by (nonlinear_arith)
            requires
                j * s > k * s,
                s > 0,
        ;
        assert(a - b >= s) by (nonlinear_arith)
            requires
                a == j * s,
                b == k * s,
                j >= k + 1,
                s > 0,
        ;
        assert(e * s <= e * (a - b)) by (nonlinear_arith)
            requires
                a - b >= s,
                e > 0,
        ;
    }
}

/// Nothing of value is bought at a price that is not positive.
proof fn lemma_entry_positive(entry: int, z: int, w: int)
    requires
        worth(w, entry * STEP_PARTS, z),
        z > 0,
        w > 1,
    ensures
        entry > 0,
{
    let ez = (entry * STEP_PARTS) * z;
    if entry <= 0 {
        assert(ez <= 0) by (nonlinear_arith)
            requires
                entry <= 0,
                z > 0,
                ez == (entry * STEP_PARTS) * z,
        ;
    }
}

/// What [`size_entry_long`] decides: the account-wide limits come first, then
/// values that are no numbers, then the size itself.
pub open spec fn entry_decision(
    regime: Regime,
    equity: Option<i128>,
    usdt_free: Option<i128>,
    peak_equity: int,
    daily_start: int,
    session_pnl: int,
    entry: Option<i128>,
    stop: Option<i128>,
    step: Option<i128>,
    min_notional: Option<i128>,
    multiplier: Option<i128>,
    cap: Option<i128>,
) -> Option<RiskView> {
    match account_gate(regime, equity, peak_equity, daily_start, session_pnl) {
        Some(b) => Some(b),
        None => match bad_value(equity, usdt_free, entry, stop, step, min_notional) {
            Some(b) => Some(b),
            None => match share_of(regime, multiplier, peak_equity, equity->0) {
                None => None,
                Some(share) => sized_entry(
                    share,
                    equity->0 as int,
                    usdt_free->0 as int,
                    entry->0 as int,
                    stop->0 as int,
                    step->0 as int,
                    min_notional->0 as int,
                    cap,
                ),
            },
        },
    }
}

/// The share of the equity that an entry risks: that of the regime, times the
/// multiplier, and a quarter of it 10% under the peak.
pub open spec fn share_of(
    regime: Regime,
    multiplier: Option<i128>,
    peak_equity: int,
    equity: i128,
) -> Option<(int, nat)> {
    match risk_share(regime, multiplier) {
        None => None,
        Some(share) => throttled_share(share, peak_equity, equity),
    }
}

/// `10^24`.
pub const CUBE: i128 = 1_000_000_000_000_000_000_000_000;

/// Whether `risk_usdt` is the product of the equity, the share of the regime, the
/// multiplier and the throttle, to 51 hundredths of a step of `10^-12`.
pub open spec fn risk_is(
    risk_usdt: int,
    regime: Regime,
    equity: i128,
    peak_equity: int,
    multiplier: Option<i128>,
) -> bool {
    let quarters = if fallen(peak_equity, Some(equity), 10) {
        1int
    } else {
        4
    };
    let exact = equity * (base_risk(regime) * multiplier_of(multiplier)) * quarters;
    100 * abs_of(4 * (risk_usdt * CUBE) - exact) <= 51 * 4 * CUBE
}

proof fn lemma_risk_is(
    risk: (int, nat),
    share: int,
    regime: Regime,
    equity: i128,
    peak_equity: int,
    multiplier: Option<i128>,
)
    requires
        risk.1 <= 28,
        bounded(nearest_fixed(risk)),
        worth(value(risk), equity * STEP_PARTS, share),
        4 * share == base_risk(regime) * multiplier_of(multiplier) * 10_000 * (if fallen(
            peak_equity,
            Some(equity),
            10,
        ) {
            1int
        } else {
            4
        }),
    ensures
        risk_is(nearest_fixed(risk), regime, equity, peak_equity, multiplier),
{
    lemma_nearest(risk);
    let quarters = if fallen(peak_equity, Some(equity), 10) {
        1int
    } else {
        4
    };
    let b = base_risk(regime) * multiplier_of(multiplier);
    let exact = equity * b * quarters;
    let es = (equity * STEP_PARTS) * share;
    assert(4 * es == exact * 100_000_000_000_000_000_000) by (nonlinear_arith)
        requires
            es == (equity * STEP_PARTS) * share,
            4 * share == b * 10_000 * quarters,
            exact == equity * b * quarters,
    ;
}

/// Whether an allowed trade is what it was sized from: see [`fair_size`] and
/// [`risk_is`]. Between the entry and the stop it loses no more than its risk and one
/// step of `10^-12`; of a capped trade that is known where the stop is no negative
/// price, or one step of the exchange is worth more than `4 * 10^-14`. It is no smaller than
/// it has to be: one step of the exchange more would lose the risk, or, of a capped trade, be
/// worth the cap, each less one step of `10^-12`.
pub open spec fn sound_trade(
    qty: int,
    notional: int,
    risk_usdt: int,
    was_capped: bool,
    regime: Regime,
    equity: i128,
    usdt_free: int,
    peak_equity: int,
    entry: int,
    stop: int,
    step: int,
    min_notional: int,
    multiplier: Option<i128>,
    cap: Option<i128>,
) -> bool {
    &&& fair_size(qty, notional, usdt_free, entry, step, min_notional)
    &&& risk_is(risk_usdt, regime, equity, peak_equity, multiplier)
    &&& cap is Some && cap->0 > 0 ==> notional <= cap->0
    &&& step > 0 && (stop >= 0 || !was_capped || entry * step > 40_000_000_000) ==> qty * (entry
        - stop) <= (risk_usdt + 1) * ONE
    &&& step > 0 && !was_capped ==> (qty + step) * (entry - stop) >= (risk_usdt - 1) * ONE
    &&& step > 0 && was_capped ==> cap is Some && (qty + step) * entry >= (cap->0 - 1) * ONE
}

/// What an entry loses at its stop.
proof fn lemma_loss(
    qty: int,
    ks: int,
    entry: int,
    stop: int,
    step: int,
    raw: int,
    risk: (int, nat),
    was_capped: bool,
)
    requires
        raw_kept(qty * STEP_PARTS, ks, raw, entry * STEP_PARTS, step * STEP_PARTS, was_capped),
        shared(raw, (entry - stop) * STEP_PARTS, value(risk)),
        used_up(raw, (entry - stop) * STEP_PARTS, value(risk)),
        0 < entry <= LIMIT,
        0 < entry - stop <= 2 * LIMIT,
        stop >= 0 || !was_capped || entry * step > 40_000_000_000,
        risk.1 <= 28,
        bounded(nearest_fixed(risk)),
        value(risk) >= 0,
    ensures
        qty * (entry - stop) <= (nearest_fixed(risk) + 1) * ONE,
        !was_capped ==> (qty + step) * (entry - stop) >= (nearest_fixed(risk) - 1) * ONE,
{
    lemma_nearest(risk);
    let u = STEP_PARTS as int;
    let d = (entry - stop) * u;
    let e = entry * u;
    let z = qty * u;
    lemma_risk_kept(ks, raw, d, value(risk));
    lemma_risk_used(ks, step * u, raw, d, value(risk));
    if !was_capped {
        lemma_in_steps(qty + step, entry - stop, ks + step * u, d);
    }
    let zd = z * d;
    let ksd = ks * d;
    let es = entry * step;
    assert(e * (step * u) == es * u * u) by (nonlinear_arith)
        requires
            e == entry * u,
            es == entry * step,
    ;
    if z > ks {
        assert((z - ks) * d <= e * (z - ks)) by (nonlinear_arith)
            requires
                z > ks,
                d <= e,
        ;
    } else {
        assert((z - ks) * d <= 0) by (nonlinear_arith)
            requires
                z <= ks,
                d > 0,
        ;
    }
    assert((z - ks) * d == zd - ksd) by (nonlinear_arith)
        requires
            zd == z * d,
            ksd == ks * d,
    ;
    let l = qty * (entry - stop);
    assert(zd == l * u * u) by (nonlinear_arith)
        requires
            zd == z * d,
            z == qty * u,
            d == (entry - stop) * u,
            l == qty * (entry - stop),
    ;
}

/// Whether `share` is the share of the equity that may be lost, in parts of `10^-28`.
pub open spec fn share_is(
    share: int,
    regime: Regime,
    equity: i128,
    peak_equity: int,
    multiplier: Option<i128>,
) -> bool {
    4 * share == base_risk(regime) * multiplier_of(multiplier) * 10_000 * (if fallen(
        peak_equity,
        Some(equity),
        10,
    ) {
        1int
    } else {
        4
    })
}

/// Whether `x` is the raw quantity that loses the risk between the entry and the stop, in parts
/// of `10^-28`. It is none where the risk is next to nothing.
pub open spec fn raw_quantity(
    x: int,
    regime: Regime,
    equity: i128,
    peak_equity: int,
    entry: int,
    stop: int,
    multiplier: Option<i128>,
) -> bool {
    exists|share: int, risk: int| #[trigger]
        share_is(share, regime, equity, peak_equity, multiplier) && #[trigger] worth(
            risk,
            equity * STEP_PARTS,
            share,
        ) && (if x <= 0 {
            risk * PARTS <= (entry - stop) * STEP_PARTS
        } else {
            shared(x, (entry - stop) * STEP_PARTS, risk) && used_up(
                x,
                (entry - stop) * STEP_PARTS,
                risk,
            )
        })
}

/// Whether an entry that the account admits is refused for cause: the stop is not under it,
/// or the raw quantity is none or refused. See [`fairly_refused`].
pub open spec fn entry_refused_for_cause(
    regime: Regime,
    equity: i128,
    usdt_free: int,
    peak_equity: int,
    entry: int,
    stop: int,
    step: int,
    min_notional: int,
    multiplier: Option<i128>,
    cap: Option<i128>,
) -> bool {
    ||| stop >= entry
    ||| exists|x: int| #[trigger]
        raw_quantity(x, regime, equity, peak_equity, entry, stop, multiplier) && (x <= 0
            || fairly_refused(x, entry, step, min_notional, usdt_free, cap))
}

/// The amounts of an allowed trade are within the range of the arithmetic, and
/// something is bought.
pub open spec fn in_range(d: Option<RiskDecision>) -> bool {
    match d {
        Some(RiskDecision::Allow { qty, notional, risk_usdt, .. }) => 0 < qty <= LIMIT && 0 < notional
            <= LIMIT && bounded(risk_usdt as int),
        _ => true,
    }
}

/// The size of a long entry, or the reason not to make one.
///
/// A value that is no number is given as `None`; for the multiplier and the cap
/// that means that there is none. The result is `None` where the decimal
/// arithmetic overflows.
///
/// The cap is hard: whatever is allowed is worth no more than a positive cap, and buys
/// something. See [`sound_trade`] for what else holds of it.
pub fn size_entry_long(
    regime: Regime,
    equity_usdt: Option<i128>,
    usdt_free: Option<i128>,
    peak_equity_usdt: i128,
    daily_loss_start_equity_usdt: i128,
    session_pnl_usdt: i128,
    entry_price: Option<i128>,
    stop_price: Option<i128>,
    step_size: Option<i128>,
    min_notional: Option<i128>,
    risk_fraction_multiplier: Option<i128>,
    max_notional_cap_usdt: Option<i128>,
) -> (d: Option<RiskDecision>)
    requires
        equity_usdt is Some ==> bounded(equity_usdt->0 as int),
        usdt_free is Some ==> bounded(usdt_free->0 as int),
        bounded(peak_equity_usdt as int),
        bounded(daily_loss_start_equity_usdt as int),
        bounded(session_pnl_usdt as int),
        entry_price is Some ==> bounded(entry_price->0 as int),
        stop_price is Some ==> bounded(stop_price->0 as int),
        step_size is Some ==> bounded(step_size->0 as int),
        min_notional is Some ==> bounded(min_notional->0 as int),
        risk_fraction_multiplier is Some ==> bounded(risk_fraction_multiplier->0 as int),
        max_notional_cap_usdt is Some ==> bounded(max_notional_cap_usdt->0 as int),
    ensures
        view_of(d) == entry_decision(
            regime,
            equity_usdt,
            usdt_free,
            peak_equity_usdt as int,
            daily_loss_start_equity_usdt as int,
            session_pnl_usdt as int,
            entry_price,
            stop_price,
            step_size,
            min_notional,
            risk_fraction_multiplier,
            max_notional_cap_usdt,
        ),
        in_range(d),
        !over_cap(d, max_notional_cap_usdt),
        match d {
            Some(RiskDecision::Allow { qty, notional, risk_usdt, was_capped, .. }) => sound_trade(
                qty as int,
                notional as int,
                risk_usdt as int,
                was_capped,
                regime,
                equity_usdt->0,
                usdt_free->0 as int,
                peak_equity_usdt as int,
                entry_price->0 as int,
                stop_price->0 as int,
                step_size->0 as int,
                min_notional->0 as int,
                risk_fraction_multiplier,
                max_notional_cap_usdt,
            ),
            _ => true,
        },
        is_refused(d) && account_gate(
            regime,
            equity_usdt,
            peak_equity_usdt as int,
            daily_loss_start_equity_usdt as int,
            session_pnl_usdt as int,
        ) is None && bad_value(
            equity_usdt,
            usdt_free,
            entry_price,
            stop_price,
            step_size,
            min_notional,
        ) is None && step_size->0 > 0 && entry_price->0 > 0 ==> entry_refused_for_cause(
            regime,
            equity_usdt->0,
            usdt_free->0 as int,
            peak_equity_usdt as int,
            entry_price->0 as int,
            stop_price->0 as int,
            step_size->0 as int,
            min_notional->0 as int,
            risk_fraction_multiplier,
            max_notional_cap_usdt,
        ),
{
    if let Some(b) = risk_gate(
        regime,
        equity_usdt,
        peak_equity_usdt,
        daily_loss_start_equity_usdt,
        session_pnl_usdt,
    ) {
        return Some(b);
    }
    let equity: i128 = match equity_usdt {
        Some(v) => v,
        None => return Some(block("Bad equity value. We stop.", true)),
    };
    let free: i128 = match usdt_free {
        Some(v) => v,
        None => return Some(block("Bad wallet value. We stop.", true)),
    };
    let entry: i128 = match entry_price {
        Some(v) => v,
        None => return Some(block("Bad entry price. We skip.", false)),
    };
    let stop: i128 = match stop_price {
        Some(v) => v,
        None => return Some(block("Bad stop price. We skip.", false)),
    };
    let step: i128 = match step_size {
        Some(v) => v,
        None => return Some(block("Bad step size. We skip.", false)),
    };
    let minimum: i128 = match min_notional {
        Some(v) => v,
        None => return Some(block("Bad min_notional. We skip.", false)),
    };
    let base_d: Dec = match share_at_risk(regime, risk_fraction_multiplier) {
        Some(d) => d,
        None => return None,
    };
    let share_d: Dec = match share_after_throttle(base_d, peak_equity_usdt, equity) {
        Some(d) => d,
        None => return None,
    };
    let equity_d: Dec = plain_dec(equity);
    let risk_usdt_d: Dec = match dec_mul(equity_d, share_d) {
        Some(d) => d,
        None => return None,
    };
    let entry_d: Dec = plain_dec(entry);
    let stop_d: Dec = plain_dec(stop);
    let stop_distance_d: Dec = match dec_sub(entry_d, stop_d) {
        Some(d) => d,
        None => return None,
    };
    proof {
        lemma_distance(entry_d, stop_d, stop_distance_d, entry as int, stop as int);
        lemma_value_sign(stop_distance_d@);
        lemma_plain_value(equity_d@, equity as int);
        lemma_product_worth(equity_d@, share_d@, risk_usdt_d@);
        assert(share_is(
            value(share_d@),
            regime,
            equity,
            peak_equity_usdt as int,
            risk_fraction_multiplier,
        ));
        assert(worth(value(risk_usdt_d@), equity * STEP_PARTS, value(share_d@)));
    }
    if stop_distance_d.mantissa <= 0 {
        return Some(block("Stop price is not below entry. We skip.", false));
    }
    let qty_raw_d: Dec = match dec_div(risk_usdt_d, stop_distance_d) {
        Some(d) => d,
        None => return None,
    };
    if qty_raw_d.mantissa <= 0 {
        proof {
            lemma_value_sign(qty_raw_d@);
            lemma_nothing_shared(risk_usdt_d@, stop_distance_d@, qty_raw_d@);
            assert(raw_quantity(
                value(qty_raw_d@),
                regime,
                equity,
                peak_equity_usdt as int,
                entry as int,
                stop as int,
                risk_fraction_multiplier,
            ));
        }
        return Some(block("Bad position size. We skip.", false));
    }
    let d: Option<RiskDecision> = size_quantity(
        qty_raw_d,
        risk_usdt_d,
        free,
        entry,
        step,
        minimum,
        max_notional_cap_usdt,
    );
    proof {
        lemma_value_sign(qty_raw_d@);
        lemma_quotient_shares(risk_usdt_d@, stop_distance_d@, qty_raw_d@);
        assert(raw_quantity(
            value(qty_raw_d@),
            regime,
            equity,
            peak_equity_usdt as int,
            entry as int,
            stop as int,
            risk_fraction_multiplier,
        ));
        if let Some(RiskDecision::Allow { qty, was_capped, .. }) = d {
            lemma_plain_value(equity_d@, equity as int);
            lemma_product_worth(equity_d@, share_d@, risk_usdt_d@);
            lemma_risk_is(
                risk_usdt_d@,
                value(share_d@),
                regime,
                equity,
                peak_equity_usdt as int,
                risk_fraction_multiplier,
            );
            lemma_distance(entry_d, stop_d, stop_distance_d, entry as int, stop as int);
            lemma_value_sign(stop_distance_d@);
            lemma_quotient_shares(risk_usdt_d@, stop_distance_d@, qty_raw_d@);
            if step > 0 && (stop >= 0 || !was_capped || entry * step > 40_000_000_000) {
                let ks = choose|ks: int| #[trigger]
                    raw_kept(
                        qty * STEP_PARTS,
                        ks,
                        value(qty_raw_d@),
                        entry * STEP_PARTS,
                        step * STEP_PARTS,
                        was_capped,
                    );
                lemma_risk_positive(risk_usdt_d@, stop_distance_d@, qty_raw_d@);
                lemma_loss(
                    qty as int,
                    ks,
                    entry as int,
                    stop as int,
                    step as int,
                    value(qty_raw_d@),
                    risk_usdt_d@,
                    was_capped,
                );
            }
        }
    }
    d
}

/// The distance between two prices is exact.
proof fn lemma_distance(a: Dec, b: Dec, r: Dec, x: int, y: int)
    requires
        bounded(x),
        bounded(y),
        is_plain(a@, x),
        is_plain(b@, y),
        ({
            let s = crate::money::finer(a@, b@);
            let p = aligned(a@, s);
            let q = aligned(b@, s);
            fits(p) && fits(q) && fits(p - q) ==> r.scale <= s && aligned(r@, s) == p - q
        }),
    ensures
        value(r@) == (x - y) * STEP_PARTS,
{
    let s = crate::money::finer(a@, b@);
    let t = pow10((12 - s) as nat) as int;
    lemma_pow10_positive((12 - s) as nat);
    let p = aligned(a@, s);
    let q = aligned(b@, s);
    lemma_pow10_add((s - a.scale) as nat, (12 - s) as nat);
    lemma_pow10_add((s - b.scale) as nat, (12 - s) as nat);
    assert(((s - a.scale) as nat + (12 - s) as nat) as nat == (12 - a.scale) as nat);
    assert(((s - b.scale) as nat + (12 - s) as nat) as nat == (12 - b.scale) as nat);
    let pa = pow10((s - a.scale) as nat) as int;
    let pb = pow10((s - b.scale) as nat) as int;
    assert(p * t == x) by (nonlinear_arith)
        requires
            p == a.mantissa * pa,
            a.mantissa * (pa * t) == x,
    ;
    assert(q * t == y) by (nonlinear_arith)
        requires
            q == b.mantissa * pb,
            b.mantissa * (pb * t) == y,
    ;
    assert(-LIMIT <= p <= LIMIT && -LIMIT <= q <= LIMIT) by (nonlinear_arith)
        requires
            p * t == x,
            q * t == y,
            t >= 1,
            -LIMIT <= x <= LIMIT,
            -LIMIT <= y <= LIMIT,
    ;
    assert((p - q) * t == x - y) by (nonlinear_arith)
        requires
            p * t == x,
            q * t == y,
    ;
    lemma_aligned_value(r@, s, x - y);
}

/// What is shared out is not negative.
proof fn lemma_risk_positive(a: (int, nat), b: (int, nat), q: (int, nat))
    requires
        b.1 <= 28,
        b.0 > 0,
        q.1 <= 28,
        q.0 > 0,
        near_quotient(a, b, q),
        value(b) <= 2 * LIMIT * STEP_PARTS,
    ensures
        value(a) >= 0,
{
    lemma_powers();
    lemma_value_sign(b);
    lemma_value_sign(q);
    let x = value(q);
    let d = value(b);
    let xd = x * d;
    assert(d * (TENTH + x) == d * TENTH + xd) by (nonlinear_arith)
        requires
            xd == x * d,
    ;
    assert(xd >= d) by (nonlinear_arith)
        requires
            x >= 1,
            d > 0,
            xd == x * d,
    ;
}

/// No entry is sized once the money is gone, 2% are lost today, 1% is lost in
/// this session, the equity is 15% under its peak, or the market is illiquid.
pub proof fn law_limits_block(
    regime: Regime,
    equity: i128,
    peak_equity: int,
    daily_start: int,
    session_pnl: int,
)
    requires
        equity <= 0 || (daily_start > 0 && 50 * (daily_start - equity) >= daily_start) || 100
            * session_pnl < -equity || fallen(peak_equity, Some(equity), 15) || regime == Regime::Illiquid,
    ensures
        account_gate(regime, Some(equity), peak_equity, daily_start, session_pnl) is Some,
{
}

/// An allowed size clears the exchange's minimum, and 101% of its value is free.
pub proof fn law_allowed_is_affordable(
    entry: (int, nat),
    qty: (int, nat),
    notional: (int, nat),
    risk: (int, nat),
    was_capped: bool,
    min_notional: (int, nat),
    usdt_free: (int, nat),
)
    requires
        approved_size(entry, qty, notional, risk, was_capped, min_notional, usdt_free) is Some,
        approved_size(entry, qty, notional, risk, was_capped, min_notional, usdt_free)->0 is Allow,
    ensures
        clears_minimum(entry, qty, min_notional) == Some(true),
        decimal_product(notional, (101int, 2nat)) is Some,
        decimal_sum(usdt_free, (1int, 12nat)) is Some,
        dec_at_most(
            decimal_product(notional, (101int, 2nat))->0,
            decimal_sum(usdt_free, (1int, 12nat))->0,
        ),
{
}

/// The size falls with the true range: up to the usual range it is whole, from twice the usual
/// range it is halved, and between the two it loses half of what the range is above the usual.
pub proof fn law_size_falls_with_the_range(r: i128)
    requires
        bounded(r as int),
    ensures
        r <= 1_000_000_000_000 ==> atr_multiplier(Some(r)) == 1_000_000_000_000,
        r >= 2_000_000_000_000 ==> atr_multiplier(Some(r)) == 500_000_000_000,
        1_000_000_000_000 <= r <= 2_000_000_000_000 ==> -1 <= 2 * (1_000_000_000_000
            - atr_multiplier(Some(r))) - (r - 1_000_000_000_000) <= 1,
        atr_multiplier(None) == 1_000_000_000_000,
{
    let m = max_of(r - ONE, 0);
    crate::fixed::lemma_round_div_error(m, 2);
}

/// The drawdown is what the equity is under its peak, as a share of the peak to half a step;
/// above the peak there is none.
pub proof fn law_drawdown_is_the_share_lost(peak: int, equity: int)
    requires
        peak > 0,
    ensures
        equity >= peak ==> drawdown(peak, equity) == 0,
        equity <= peak ==> -peak <= 2 * (drawdown(peak, equity) * peak - (peak - equity) * ONE)
            <= peak,
        equity <= peak ==> drawdown(peak, equity) >= 0,
{
    crate::fixed::lemma_round_div_error((peak - equity) * ONE, peak);
    crate::fixed::lemma_round_div_exact(0, peak);
    if equity <= peak {
        crate::fixed::lemma_round_div_monotone(0, (peak - equity) * ONE, peak);
    } else {
        crate::fixed::lemma_round_div_monotone((peak - equity) * ONE, 0, peak);
    }
}

/// The account keeps an entry from being made in exactly these situations, and puts the bot
/// to sleep in all of them but a session loss and an illiquid market.
pub proof fn law_gate_is_shut_for_cause(
    regime: Regime,
    equity: i128,
    peak: int,
    daily_start: int,
    session_pnl: int,
)
    ensures
        ({
            let g = account_gate(regime, Some(equity), peak, daily_start, session_pnl);
            let broke = equity <= 0;
            let day = daily_start > 0 && 50 * equity <= 49 * daily_start;
            let session = session_pnl * 100 + equity < 0;
            let fall = peak > 0 && 100 * equity <= 85 * peak;
            &&& g is Some <==> broke || day || session || fall || regime == Regime::Illiquid
            &&& g is Some ==> g->0 is Block
            &&& g is Some && (broke || day) ==> g->0->hibernate
            &&& g is Some && !broke && !day && session ==> !g->0->hibernate
            &&& g is Some && !broke && !day && !session && fall ==> g->0->hibernate
            &&& g is Some && !broke && !day && !session && !fall ==> !g->0->hibernate
        }),
{
}

/// What an allowed trade is, in numbers: it can be paid, reaches the minimum, keeps to a cap,
/// loses what may be lost and no more, and is no smaller than it has to be.
pub proof fn law_sound_trade_in_numbers(
    qty: int,
    notional: int,
    risk_usdt: int,
    was_capped: bool,
    regime: Regime,
    equity: i128,
    usdt_free: int,
    peak_equity: int,
    entry: int,
    stop: int,
    step: int,
    min_notional: int,
    multiplier: Option<i128>,
    cap: Option<i128>,
)
    requires
        sound_trade(
            qty,
            notional,
            risk_usdt,
            was_capped,
            regime,
            equity,
            usdt_free,
            peak_equity,
            entry,
            stop,
            step,
            min_notional,
            multiplier,
            cap,
        ),
        step > 0,
    ensures
        entry > 0,
        notional >= min_notional - 2,
        101 * notional <= 100 * usdt_free + 200,
        qty % step == 0,
        -ONE < notional * ONE - entry * qty < ONE,
        cap is Some && cap->0 > 0 ==> notional <= cap->0,
        stop >= 0 ==> qty * (entry - stop) <= (risk_usdt + 1) * ONE,
        !was_capped ==> (qty + step) * (entry - stop) >= (risk_usdt - 1) * ONE,
        was_capped ==> (qty + step) * entry >= (cap->0 - 1) * ONE,
{
}

/// What may be lost is a share of the equity: half a percent in a trending market, a quarter
/// of a percent in a volatile one and 0.35 percent in a ranging one, times the multiplier, and a
/// quarter of that once the equity is a tenth under its peak.
pub proof fn law_risk_is_a_share_of_the_equity(
    risk_usdt: int,
    regime: Regime,
    equity: i128,
    peak: int,
    m: i128,
)
    requires
        risk_is(risk_usdt, regime, equity, peak, Some(m)),
        m > 0,
    ensures
        ({
            let exact = equity * m;
            let throttled = peak > 0 && 10 * equity <= 9 * peak;
            let off = 409 * ONE;
            &&& regime == Regime::Trending && !throttled ==> -off <= 200 * (risk_usdt * ONE) - exact
                <= off
            &&& regime == Regime::Volatile && !throttled ==> -off <= 400 * (risk_usdt * ONE) - exact
                <= off
            &&& regime == Regime::Ranging && !throttled ==> -7 * off <= 2_000 * (risk_usdt * ONE)
                - 7 * exact <= 7 * off
            &&& regime == Regime::Trending && throttled ==> -off <= 800 * (risk_usdt * ONE) - exact
                <= off
            &&& regime == Regime::Volatile && throttled ==> -4 * off <= 1_600 * (risk_usdt * ONE)
                - exact <= 4 * off
            &&& regime == Regime::Ranging && throttled ==> -28 * off <= 8_000 * (risk_usdt * ONE) - 7
                * exact <= 28 * off
        }),
{
    let b = base_risk(regime);
    let exact = equity * m;
    assert(equity * (b * m) == exact * b) by (nonlinear_arith)
        requires
            exact == equity * m,
    ;
}

} // verus!
