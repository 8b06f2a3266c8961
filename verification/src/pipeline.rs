//! What surrounds a run: who may be asked, how old the data is, how the day
//! opens, how the books close, and what the audit log may hold.
use crate::account::{cut, truncate_chars, SpotBalances};
use crate::exchange_info::{default_rules, usual_rules, SymbolRules};
use crate::execution::{mode_name, mode_text, Mode};
use crate::features::Candle;
use crate::fixed::{
    bounded, div_fixed, max_fixed, max_of, mul_fixed, product, quotient, saturate, saturated, ONE,
};
use crate::numeral::{parse_whole, whole_value};
use crate::json::{json_field, reply_text, FieldView};
use crate::regime::{regime_text, Regime};
use crate::risk::{atr_multiplier, atr_size_multiplier};
use crate::state::{BotState, Position};
use crate::text::{
    contains, contains_text, fixed_string, fixed_text, int_string, int_text, is_blank, nat_text,
    same_text, trim_text, trimmed, u64_string,
};
use crate::tick::{decision_text, Tick, TickView};
use vstd::prelude::*;

verus! {

/// The result of one run.
#[derive(Clone, Debug)]
pub struct CoreOutcome {
    pub did_place_order: bool,
    pub mode: Mode,
    pub regime: Regime,
    pub decision: String,
    pub reason: String,
    pub end: String,
}

/// What a run says at its end: whether money moved.
pub open spec fn end_text(mode: Mode, did_place_order: bool) -> Seq<char> {
    if mode == Mode::Live && did_place_order {
        "real order sent"@
    } else {
        "no money moved"@
    }
}

/// The end of a run, in words. See [`end_text`].
pub fn end_message(mode: Mode, did_place_order: bool) -> (s: &'static str)
    ensures
        s@ == end_text(mode, did_place_order),
{
    if mode == Mode::Live && did_place_order {
        "real order sent"
    } else {
        "no money moved"
    }
}

/// The outcome of a run that is over.
pub fn outcome_of(t: &Tick) -> (o: CoreOutcome)
    ensures
        o.did_place_order == t.did_place_order,
        o.mode == t.base.set.mode,
        o.regime == t.base.reading.regime,
        o.decision@ == decision_text(t.decision),
        o.reason@ == t.reason@,
        o.end@ == end_text(t.base.set.mode, t.did_place_order),
{
    CoreOutcome {
        did_place_order: t.did_place_order,
        mode: t.base.set.mode,
        regime: t.base.reading.regime,
        decision: String::from_str(t.decision.name()),
        reason: t.reason.clone(),
        end: String::from_str(end_message(t.base.set.mode, t.did_place_order)),
    }
}

/// The outcome of a run that does nothing.
pub fn waiting(mode: Mode, regime: Regime, reason: &str) -> (o: CoreOutcome)
    ensures
        !o.did_place_order,
        o.mode == mode,
        o.regime == regime,
        o.decision@ == "WAIT"@,
        o.reason@ == reason@,
        o.end@ == "no money moved"@,
{
    CoreOutcome {
        did_place_order: false,
        mode,
        regime,
        decision: String::from_str("WAIT"),
        reason: String::from_str(reason),
        end: String::from_str("no money moved"),
    }
}

/// Why a run ends before it looks at its position.
#[derive(Clone, Copy, Debug, PartialEq, Eq, Structural)]
pub enum EarlyEnd {
    /// The exchange refused the key.
    KeyRefused,
    /// The indicators lack candles.
    NoHistory,
    /// There is no key, or it is not asked for now.
    NoWallet,
    /// The bot is dead.
    Dead,
}

/// The words of an early end.
pub open spec fn early_end_text(e: EarlyEnd) -> Seq<char> {
    match e {
        EarlyEnd::KeyRefused => "Binance rejected the API key. Cooling down for 60m."@,
        EarlyEnd::NoHistory => "We wait. Not enough candle history yet."@,
        EarlyEnd::NoWallet => "I cannot see your wallet. We only watch."@,
        EarlyEnd::Dead => "We lost 20%. Bot is dead. No more trading."@,
    }
}

/// The outcome of a run that ends early: it does nothing. Before the market is
/// known it counts as ranging.
pub fn end_early(mode: Mode, regime: Option<Regime>, e: EarlyEnd) -> (o: CoreOutcome)
    ensures
        !o.did_place_order,
        o.mode == mode,
        o.regime == (match regime {
            Some(r) => r,
            None => Regime::Ranging,
        }),
        o.decision@ == "WAIT"@,
        o.reason@ == early_end_text(e),
        o.end@ == "no money moved"@,
{
    let regime: Regime = match regime {
        Some(r) => r,
        None => Regime::Ranging,
    };
    match e {
        EarlyEnd::KeyRefused => waiting(
            mode,
            regime,
            "Binance rejected the API key. Cooling down for 60m.",
        ),
        EarlyEnd::NoHistory => waiting(mode, regime, "We wait. Not enough candle history yet."),
        EarlyEnd::NoWallet => waiting(mode, regime, "I cannot see your wallet. We only watch."),
        EarlyEnd::Dead => waiting(mode, regime, "We lost 20%. Bot is dead. No more trading."),
    }
}

/// What stands for the position, and the short reason, in the summary of an early end.
/// A refused key and a dead bot have none.
pub open spec fn early_summary_text(e: EarlyEnd) -> Option<(Seq<char>, Seq<char>)> {
    match e {
        EarlyEnd::NoHistory => Some(("NoState"@, "not_enough_candle_history"@)),
        EarlyEnd::NoWallet => Some(("WatchOnly"@, "no_wallet_access"@)),
        EarlyEnd::KeyRefused | EarlyEnd::Dead => None,
    }
}

/// What is told of an early end. See [`early_summary_text`].
pub fn early_summary(e: EarlyEnd) -> (r: Option<(&'static str, &'static str)>)
    ensures
        match r {
            Some(t) => early_summary_text(e) == Some((t.0@, t.1@)),
            None => early_summary_text(e) is None,
        },
{
    match e {
        EarlyEnd::NoHistory => Some(("NoState", "not_enough_candle_history")),
        EarlyEnd::NoWallet => Some(("WatchOnly", "no_wallet_access")),
        EarlyEnd::KeyRefused | EarlyEnd::Dead => None,
    }
}

/// Whether a failed look at the account pauses it: the exchange answered with an
/// error, or the error tells of a refused authentication.
pub fn pauses_account(answered: bool, text: &str) -> (r: bool)
    ensures
        r == (answered || auth_refused(text@)),
{
    answered || is_auth_error(text)
}

/// Whether an error text tells of a refused authentication.
pub open spec fn auth_refused(text: Seq<char>) -> bool {
    contains(text, "401 Unauthorized"@) || contains(text, "\"code\":-2015"@) || contains(
        text,
        "\"code\":-2014"@,
    ) || contains(text, "\"code\":-1021"@) || contains(text, "Invalid API-key"@)
}

/// Whether an error text tells of a refused authentication. See [`auth_refused`].
pub fn is_auth_error(text: &str) -> (r: bool)
    ensures
        r == auth_refused(text@),
{
    contains_text(text, "401 Unauthorized") || contains_text(text, "\"code\":-2015")
        || contains_text(text, "\"code\":-2014") || contains_text(text, "\"code\":-1021")
        || contains_text(text, "Invalid API-key")
}

/// Whether an error text carries an error code of the exchange.
pub fn is_binance_code(text: &str, code: i64) -> (r: bool)
    ensures
        r == contains(text@, "\"code\":"@ + int_text(code as int)),
{
    let mut needle: String = String::from_str("\"code\":");
    needle.append(int_string(code as i128).as_str());
    contains_text(text, needle.as_str())
}

/// Whether the account may be asked: both halves of the key are there, and no
/// pause after a refused authentication is running.
pub fn may_ask_account(st: &BotState, now_ms: u64, api_key: &str, api_secret: &str) -> (r: bool)
    ensures
        r == (!is_blank(api_key@) && !is_blank(api_secret@) && now_ms >= st.auth_cooldown_end()),
{
    !trim_text(api_key).as_str().is_empty() && !trim_text(api_secret).as_str().is_empty()
        && !st.in_auth_cooldown(now_ms)
}

/// The minutes that are left of the pause after a refused authentication.
pub fn auth_cooldown_minutes(st: &BotState, now_ms: u64) -> (r: u64)
    ensures
        r as int == (if now_ms >= st.auth_cooldown_end() {
            0
        } else {
            (st.auth_cooldown_end() - now_ms) / 60_000
        }),
        now_ms < st.auth_cooldown_end() ==> 60_000 * r <= st.auth_cooldown_end() - now_ms < 60_000
            * (r + 1),
{
    st.last_auth_error_ms.saturating_add(st.auth_error_cooldown_ms).saturating_sub(now_ms) / 60_000
}

/// Notes a refused authentication: the account is not asked for an hour.
pub fn note_auth_rejection(st: &mut BotState, now_ms: u64)
    ensures
        *final(st) == (BotState {
            last_auth_error_ms: now_ms,
            auth_error_cooldown_ms: 3_600_000,
            ..*old(st)
        }),
{
    st.last_auth_error_ms = now_ms;
    st.auth_error_cooldown_ms = 3_600_000;
}

/// After a refused authentication the account is not asked for an hour.
pub proof fn law_auth_rejection_pauses(st: BotState, now_ms: u64, later_ms: u64)
    requires
        now_ms + 3_600_000 <= u64::MAX,
    ensures
        ({
            let after = BotState {
                last_auth_error_ms: now_ms,
                auth_error_cooldown_ms: 3_600_000,
                ..st
            };
            later_ms < after.auth_cooldown_end() <==> later_ms < now_ms + 3_600_000
        }),
{
}

/// How long ago the last candle opened.
pub open spec fn candle_age(candles: Seq<Candle>, now_ms: u64) -> Option<u64> {
    if candles.len() == 0 {
        None
    } else {
        let opened = max_of(candles.last().open_time as int, 0);
        Some(max_of(now_ms - opened, 0) as u64)
    }
}

/// How long ago the last candle opened, in milliseconds; none without candles.
pub fn candle_lag_ms(candles: &Vec<Candle>, now_ms: u64) -> (r: Option<u64>)
    ensures
        r == candle_age(candles@, now_ms),
{
    if candles.len() == 0 {
        return None;
    }
    let t: i64 = candles[candles.len() - 1].open_time;
    let last_ms: u64 = if t > 0 {
        t as u64
    } else {
        0
    };
    Some(now_ms.saturating_sub(last_ms))
}

/// How old the candles of each interval may be, in minutes.
#[derive(Clone, Copy, Debug, PartialEq, Eq, Structural)]
pub struct LagLimits {
    pub max_1m_min: u32,
    pub max_5m_min: u32,
    pub max_1h_min: u32,
}

impl Default for LagLimits {
    fn default() -> (l: LagLimits)
        ensures
            l == (LagLimits { max_1m_min: 5, max_5m_min: 15, max_1h_min: 180 }),
    {
        LagLimits { max_1m_min: 5, max_5m_min: 15, max_1h_min: 180 }
    }
}

/// The ages of the last candles.
#[derive(Clone, Copy, Debug, PartialEq, Eq, Structural)]
pub struct Lags {
    pub lag_1m_ms: u64,
    pub lag_5m_ms: u64,
    pub lag_1h_ms: u64,
    pub stale_any: bool,
}

/// The age of the last candle; without candles, the largest age there is.
pub open spec fn age_or_max(candles: Seq<Candle>, now_ms: u64) -> u64 {
    match candle_age(candles, now_ms) {
        Some(a) => a,
        None => u64::MAX,
    }
}

/// Measures the age of the candles and whether any of them is too old.
pub fn measure_lags(
    candles_1m: &Vec<Candle>,
    candles_5m: &Vec<Candle>,
    candles_1h: &Vec<Candle>,
    now_ms: u64,
    limits: &LagLimits,
) -> (l: Lags)
    ensures
        l.lag_1m_ms == age_or_max(candles_1m@, now_ms),
        l.lag_5m_ms == age_or_max(candles_5m@, now_ms),
        l.lag_1h_ms == age_or_max(candles_1h@, now_ms),
        l.stale_any == (l.lag_1m_ms > limits.max_1m_min * 60_000 || l.lag_5m_ms > limits.max_5m_min
            * 60_000 || l.lag_1h_ms > limits.max_1h_min * 60_000),
        candles_1m@.len() == 0 || candles_5m@.len() == 0 || candles_1h@.len() == 0 ==> l.stale_any,
        !l.stale_any ==> {
            &&& now_ms <= max_of(candles_1m@.last().open_time as int, 0) + limits.max_1m_min * 60_000
            &&& now_ms <= max_of(candles_5m@.last().open_time as int, 0) + limits.max_5m_min * 60_000
            &&& now_ms <= max_of(candles_1h@.last().open_time as int, 0) + limits.max_1h_min * 60_000
        },
        candles_1m@.len() > 0 && candles_5m@.len() > 0 && candles_1h@.len() > 0 && now_ms
            <= candles_1m@.last().open_time + limits.max_1m_min * 60_000 && now_ms
            <= candles_5m@.last().open_time + limits.max_5m_min * 60_000 && now_ms
            <= candles_1h@.last().open_time + limits.max_1h_min * 60_000 ==> !l.stale_any,
{
    let lag_1m_ms: u64 = match candle_lag_ms(candles_1m, now_ms) {
        Some(a) => a,
        None => u64::MAX,
    };
    let lag_5m_ms: u64 = match candle_lag_ms(candles_5m, now_ms) {
        Some(a) => a,
        None => u64::MAX,
    };
    let lag_1h_ms: u64 = match candle_lag_ms(candles_1h, now_ms) {
        Some(a) => a,
        None => u64::MAX,
    };
    let stale_any: bool = lag_1m_ms > limits.max_1m_min as u64 * 60_000 || lag_5m_ms
        > limits.max_5m_min as u64 * 60_000 || lag_1h_ms > limits.max_1h_min as u64 * 60_000;
    Lags { lag_1m_ms, lag_5m_ms, lag_1h_ms, stale_any }
}

/// The limit of a setting, `usual` where it is missing or no such number.
pub open spec fn limit_or(raw: Option<&str>, usual: u32) -> u32 {
    match raw {
        Some(t) => match whole_value(t@, u32::MAX as int) {
            Some(n) => n as u32,
            None => usual,
        },
        None => usual,
    }
}

fn read_limit(raw: Option<&str>, usual: u32) -> (n: u32)
    ensures
        n == limit_or(raw, usual),
{
    match raw {
        Some(t) => match parse_whole(t, u32::MAX as u64) {
            Some(n) => n as u32,
            None => usual,
        },
        None => usual,
    }
}

/// How old the candles may be, out of the settings. The one for five minutes may be
/// set under two names; the second counts where the first is no number.
pub fn lag_limits(one: Option<&str>, five: Option<&str>, other: Option<&str>, hour: Option<&str>) -> (l:
    LagLimits)
    ensures
        l == (LagLimits {
            max_1m_min: limit_or(one, 5),
            max_5m_min: limit_or(five, limit_or(other, 15)),
            max_1h_min: limit_or(hour, 180),
        }),
{
    LagLimits {
        max_1m_min: read_limit(one, 5),
        max_5m_min: read_limit(five, read_limit(other, 15)),
        max_1h_min: read_limit(hour, 180),
    }
}

/// Whether an operator's switch is on.
pub open spec fn is_on(t: Seq<char>) -> bool {
    t == "1"@ || t == "true"@ || t == "TRUE"@ || t == "yes"@ || t == "YES"@
}

/// Whether an operator's switch is on.
pub fn env_flag(raw: Option<&str>) -> (r: bool)
    ensures
        r == (raw is Some && is_on(raw->0@)),
{
    match raw {
        Some(t) => same_text(t, "1") || same_text(t, "true") || same_text(t, "TRUE") || same_text(
            t,
            "yes",
        ) || same_text(t, "YES"),
        None => false,
    }
}

/// Where the audit log is written; nowhere where the setting is blank.
pub fn audit_log_path(raw: Option<String>) -> (r: Option<String>)
    ensures
        r is Some <==> raw is Some && !is_blank(raw->0@),
        r is Some ==> r->0@ == raw->0@,
{
    match raw {
        Some(p) => if trim_text(p.as_str()).as_str().is_empty() {
            None
        } else {
            Some(p)
        },
        None => None,
    }
}

/// The address of the price of a symbol.
pub fn price_url(base_url: &str, symbol: &str) -> (s: String)
    ensures
        s@ == base_url@ + "/api/v3/ticker/price?symbol="@ + symbol@,
{
    let mut s: String = String::from_str(base_url);
    s.append("/api/v3/ticker/price?symbol=");
    s.append(symbol);
    s
}

/// What a run knows of the market.
pub struct MarketData {
    pub price: i128,
    pub candles_1m: Vec<Candle>,
    pub candles_5m: Vec<Candle>,
    pub candles_1h: Vec<Candle>,
    pub step_size: i128,
    pub tick_size: i128,
    pub min_notional: i128,
    pub stale_any: bool,
    pub lag_1m_ms: u64,
    pub lag_5m_ms: u64,
    pub lag_1h_ms: u64,
    pub now_ms: u64,
}

/// Puts together what a run knows of the market. Without rules of the exchange,
/// the usual ones hold.
pub fn gather_market_data(
    price: i128,
    rules: Option<SymbolRules>,
    candles_1m: Vec<Candle>,
    candles_5m: Vec<Candle>,
    candles_1h: Vec<Candle>,
    now_ms: u64,
    limits: &LagLimits,
) -> (md: MarketData)
    ensures
        md.price == price,
        md.candles_1m@ == candles_1m@,
        md.candles_5m@ == candles_5m@,
        md.candles_1h@ == candles_1h@,
        md.now_ms == now_ms,
        ({
            let used = match rules {
                Some(r) => r,
                None => usual_rules(),
            };
            &&& md.step_size == used.step_size
            &&& md.tick_size == used.tick_size
            &&& md.min_notional == used.min_notional
        }),
        md.lag_1m_ms == age_or_max(candles_1m@, now_ms),
        md.lag_5m_ms == age_or_max(candles_5m@, now_ms),
        md.lag_1h_ms == age_or_max(candles_1h@, now_ms),
        md.stale_any == (md.lag_1m_ms > limits.max_1m_min * 60_000 || md.lag_5m_ms
            > limits.max_5m_min * 60_000 || md.lag_1h_ms > limits.max_1h_min * 60_000),
{
    let used: SymbolRules = match rules {
        Some(r) => r,
        None => default_rules(),
    };
    let lags: Lags = measure_lags(&candles_1m, &candles_5m, &candles_1h, now_ms, limits);
    MarketData {
        price,
        candles_1m,
        candles_5m,
        candles_1h,
        step_size: used.step_size,
        tick_size: used.tick_size,
        min_notional: used.min_notional,
        stale_any: lags.stale_any,
        lag_1m_ms: lags.lag_1m_ms,
        lag_5m_ms: lags.lag_5m_ms,
        lag_1h_ms: lags.lag_1h_ms,
        now_ms,
    }
}

/// The public address of this machine, as a look-up service tells it: the field of
/// its answer, or else the whole answer. None where that is empty.
pub fn public_ip(field: Option<String>, answer: &str) -> (r: Option<String>)
    ensures
        match field {
            Some(ip) => if ip@.len() == 0 {
                r is None
            } else {
                r is Some && r->0@ == ip@
            },
            None => if is_blank(answer@) {
                r is None
            } else {
                r is Some && r->0@ == trimmed(answer@)
            },
        },
{
    let ip: String = match field {
        Some(ip) => ip,
        None => trim_text(answer),
    };
    if ip.as_str().is_empty() {
        None
    } else {
        Some(ip)
    }
}

/// Reads the public address of this machine out of the answer of a look-up service: the
/// text of its field `ip`, or else the whole answer. None where that is empty. See
/// [`public_ip`].
pub fn public_ip_of(answer: &str) -> (r: Option<String>)
    ensures
        match json_field(answer@, "ip"@) {
            Some(FieldView::Text(ip)) => if ip.len() == 0 {
                r is None
            } else {
                r is Some && r->0@ == ip
            },
            _ => if is_blank(answer@) {
                r is None
            } else {
                r is Some && r->0@ == trimmed(answer@)
            },
        },
{
    public_ip(reply_text(answer, "ip"), answer)
}

/// What is told of a decision to whoever follows the bot closely.
pub open spec fn decision_summary_text(
    run_id: Seq<char>,
    mode: Mode,
    regime: Regime,
    position: Seq<char>,
    action: Seq<char>,
    trades: Option<(u32, u32)>,
    drawdown: Option<i128>,
    daily_loss: Option<i128>,
    throttled: Option<bool>,
) -> Seq<char> {
    "Decision summary: run_id="@ + run_id + " mode="@ + mode_text(mode) + " regime="@ + regime_text(
        regime,
    ) + " position="@ + position + " action="@ + action + " trades_today="@ + (match trades {
        Some(t) => nat_text(t.0 as nat) + "/"@ + nat_text(t.1 as nat),
        None => "?/?"@,
    }) + " dd="@ + fixed_text(percent(drawdown), 2) + "% daily_loss="@ + fixed_text(
        percent(daily_loss),
        2,
    ) + "% throttle="@ + (match throttled {
        Some(b) => if b {
            "yes"@
        } else {
            "no"@
        },
        None => "?"@,
    })
}

/// A fraction in percent, nothing where it is not known.
pub open spec fn percent(fraction: Option<i128>) -> int {
    match fraction {
        Some(f) => 100 * f,
        None => 0,
    }
}

fn percent_of(fraction: Option<i128>) -> (p: i128)
    requires
        fraction is Some ==> bounded(fraction->0 as int),
    ensures
        p == percent(fraction),
{
    match fraction {
        Some(f) => 100 * f,
        None => 0,
    }
}

/// What is told of a decision to whoever follows the bot closely.
pub fn decision_summary(
    run_id: &str,
    mode: Mode,
    regime: Regime,
    position: &str,
    action: &str,
    trades: Option<(u32, u32)>,
    drawdown: Option<i128>,
    daily_loss: Option<i128>,
    throttled: Option<bool>,
) -> (s: String)
    requires
        drawdown is Some ==> bounded(drawdown->0 as int),
        daily_loss is Some ==> bounded(daily_loss->0 as int),
    ensures
        s@ == decision_summary_text(
            run_id@,
            mode,
            regime,
            position@,
            action@,
            trades,
            drawdown,
            daily_loss,
            throttled,
        ),
{
    let mut s: String = String::from_str("Decision summary: run_id=");
    s.append(run_id);
    s.append(" mode=");
    s.append(mode_name(mode));
    s.append(" regime=");
    s.append(regime.name());
    s.append(" position=");
    s.append(position);
    s.append(" action=");
    s.append(action);
    s.append(" trades_today=");
    match trades {
        Some(t) => {
            let mut n: String = u64_string(t.0 as u64);
            n.append("/");
            n.append(u64_string(t.1 as u64).as_str());
            s.append(n.as_str());
        },
        None => s.append("?/?"),
    }
    s.append(" dd=");
    s.append(fixed_string(percent_of(drawdown), 2).as_str());
    s.append("% daily_loss=");
    s.append(fixed_string(percent_of(daily_loss), 2).as_str());
    s.append("% throttle=");
    match throttled {
        Some(b) => if b {
            s.append("yes")
        } else {
            s.append("no")
        },
        None => s.append("?"),
    }
    s
}

/// Without candles the data is too old.
pub proof fn law_no_candles_is_stale(now_ms: u64, limit_min: u32)
    ensures
        age_or_max(Seq::<Candle>::empty(), now_ms) > limit_min * 60_000,
{
}

/// How the day opened.
#[derive(Clone, Copy, Debug, PartialEq, Eq, Structural)]
pub struct Opening {
    /// The operator brought a dead bot back.
    pub revived: bool,
    /// The bot died now.
    pub died_now: bool,
    /// The bot is dead and does not trade.
    pub dead: bool,
    /// The equity has reached the milestone: the anchor moved up and the risk is
    /// reduced for a while.
    pub milestone: bool,
}

/// Whether the operator may bring the bot back: it is dead, but no longer has lost
/// a fifth of its anchor.
pub open spec fn revivable(st: BotState, revive: bool) -> bool {
    st.is_dead && revive && st.start_equity_usdt > 0 && 10 * st.equity_usdt > 8
        * st.start_equity_usdt
}

/// What [`open_day`] finds.
pub open spec fn opening(st: BotState, revive: bool) -> Opening {
    let revived = revivable(st, revive);
    let signs = (BotState { is_dead: st.is_dead && !revived, ..st }).life_signs(
        st.equity_usdt as int,
    );
    let dead = (st.is_dead && !revived) || signs.0;
    Opening { revived, died_now: signs.0, dead, milestone: !dead && signs.1 }
}

/// What [`open_day`] makes of the state.
pub open spec fn opened_state(
    st: BotState,
    revive: bool,
    now_ms: u64,
    reduce_hours: u64,
) -> BotState {
    let o = opening(st, revive);
    BotState {
        is_dead: o.dead,
        start_equity_usdt: if o.milestone || (!o.dead && st.start_equity_usdt <= 0) {
            st.equity_usdt
        } else {
            st.start_equity_usdt
        },
        profit_unlocked: st.profit_unlocked || o.milestone,
        anchor_bumps: if o.milestone && st.anchor_bumps < u32::MAX {
            (st.anchor_bumps + 1) as u32
        } else {
            st.anchor_bumps
        },
        risk_reduction_until_ms: if o.milestone {
            (now_ms + reduce_hours * 3_600_000) as u64
        } else {
            st.risk_reduction_until_ms
        },
        ..st
    }
}

/// Opens the day on a state that has taken over the current equity: brings the bot
/// back where the operator asks for it and nothing speaks against it, measures it
/// against its anchor, and moves the anchor up at the milestone.
pub fn open_day(st: &mut BotState, revive: bool, now_ms: u64, reduce_hours: u64) -> (o: Opening)
    requires
        old(st).ok(),
        now_ms + reduce_hours * 3_600_000 <= u64::MAX,
    ensures
        o == opening(*old(st), revive),
        *final(st) == opened_state(*old(st), revive, now_ms, reduce_hours),
        final(st).ok(),
{
    let mut revived: bool = false;
    if st.is_dead && revive && st.start_equity_usdt > 0 && 10 * st.equity_usdt > 8
        * st.start_equity_usdt {
        st.is_dead = false;
        revived = true;
    }
    let equity: i128 = st.equity_usdt;
    let (died_now, unlocked_now) = st.eval_death_and_unlock(equity, now_ms);
    if died_now || st.is_dead {
        return Opening { revived, died_now, dead: true, milestone: false };
    }
    if unlocked_now {
        st.start_equity_usdt = equity;
        st.anchor_bumps = st.anchor_bumps.saturating_add(1);
        st.risk_reduction_until_ms = now_ms + reduce_hours * 3_600_000;
    }
    Opening { revived, died_now, dead: false, milestone: unlocked_now }
}

/// A bot that is dead stays dead unless the operator asks otherwise, and is never
/// brought back while it has lost a fifth of its anchor.
pub proof fn law_revival_needs_operator_and_equity(st: BotState, revive: bool)
    requires
        st.is_dead,
        !opening(st, revive).dead,
    ensures
        revive,
        10 * st.equity_usdt > 8 * st.start_equity_usdt,
{
}

/// After the milestone the anchor is the equity, so that the milestone is not
/// reached again at once.
pub proof fn law_milestone_moves_the_anchor(st: BotState, now_ms: u64, reduce_hours: u64)
    requires
        opening(st, false).milestone,
        st.equity_usdt > 0,
    ensures
        !opening(opened_state(st, false, now_ms, reduce_hours), false).milestone,
        !opening(opened_state(st, false, now_ms, reduce_hours), false).dead,
{
}

/// How many trades a day may have: three, and five once the profit is unlocked.
pub fn max_trades_per_day(st: &BotState) -> (n: u32)
    ensures
        n == (if st.profit_unlocked {
            5u32
        } else {
            3
        }),
{
    if st.profit_unlocked {
        5
    } else {
        3
    }
}

/// The factor on the risk of a trade: 1.25 once the profit is unlocked, less for a
/// while after a milestone, and less while the market is volatile.
pub open spec fn risk_factor(
    st: BotState,
    now_ms: u64,
    reduce_mult: Option<i128>,
    atr_ratio: Option<i128>,
) -> int {
    let base: int = if st.profit_unlocked {
        1_250_000_000_000
    } else {
        ONE as int
    };
    let reduced = if now_ms < st.risk_reduction_until_ms && reduce_mult is Some && reduce_mult->0
        > 0 {
        saturated(product(base, reduce_mult->0 as int))
    } else {
        base
    };
    saturated(product(reduced, atr_multiplier(atr_ratio)))
}

/// The factor on the risk of a trade. See [`risk_factor`].
pub fn risk_multiplier(
    st: &BotState,
    now_ms: u64,
    reduce_mult: Option<i128>,
    atr_ratio: Option<i128>,
) -> (r: i128)
    requires
        reduce_mult is Some ==> bounded(reduce_mult->0 as int),
        atr_ratio is Some ==> bounded(atr_ratio->0 as int),
    ensures
        r == risk_factor(*st, now_ms, reduce_mult, atr_ratio),
        bounded(r as int),
{
    let mut m: i128 = if st.profit_unlocked {
        1_250_000_000_000
    } else {
        ONE
    };
    if now_ms < st.risk_reduction_until_ms {
        if let Some(k) = reduce_mult {
            if k > 0 {
                m = saturate(mul_fixed(m, k));
            }
        }
    }
    saturate(mul_fixed(m, atr_size_multiplier(atr_ratio)))
}

/// What came of looking at the wallet again at the end of a run.
#[derive(Clone, Copy, Debug, PartialEq, Eq, Structural)]
pub enum Refresh {
    /// It was not needed.
    NotAsked,
    Wallet { wallet: SpotBalances },
    /// The exchange refused the key.
    Rejected,
    Failed,
}

/// Whether the wallet has to be looked at again: a real order was sent.
pub fn needs_refresh(t: &Tick) -> (r: bool)
    ensures
        r == (t.base.set.mode == Mode::Live && t.did_place_order),
{
    t.base.set.mode == Mode::Live && t.did_place_order
}

/// What closing the books makes of the state: the equity is taken over from the
/// wallet, or stays as the run saw it. It fails where the wallet was needed and
/// could not be had.
pub open spec fn closed(
    before: TickView,
    refresh: Refresh,
    equity_usdt: i128,
    today: Seq<char>,
    r: Result<(), ()>,
    after: BotState,
) -> bool {
    if before.base.set.mode == Mode::Live && before.did_place_order {
        match refresh {
            Refresh::Wallet { wallet } => r is Ok && before.state.synced(
                wallet.worth(before.base.market.price as int) as i128,
                today,
                after,
            ),
            Refresh::Rejected => r is Ok && after == before.state,
            _ => r is Err && after == before.state,
        }
    } else {
        r is Ok && before.state.synced(equity_usdt, today, after)
    }
}

/// Closes the books of a run on the given day. See [`closed`].
pub fn close_books_on(t: &mut Tick, refresh: Refresh, equity_usdt: i128, today: String) -> (r: Result<
    (),
    (),
>)
    requires
        old(t)@.ok(),
        bounded(equity_usdt as int),
        refresh is Wallet ==> refresh->wallet.ok(),
    ensures
        closed(old(t)@, refresh, equity_usdt, today@, r, final(t).state),
        final(t)@ == (TickView { state: final(t).state, ..old(t)@ }),
        final(t).state.ok(),
{
    if needs_refresh(t) {
        match refresh {
            Refresh::Wallet { wallet } => {
                let equity: i128 = wallet.equity(t.base.market.price);
                t.state.sync_equity_and_day_on(equity, today);
                Ok(())
            },
            Refresh::Rejected => Ok(()),
            _ => Err(()),
        }
    } else {
        t.state.sync_equity_and_day_on(equity_usdt, today);
        Ok(())
    }
}

/// The name of a position.
pub open spec fn label_of(p: Position) -> Seq<char> {
    match p {
        Position::Flat => "Flat"@,
        Position::ExternalInventory { .. } => "ExternalInventory"@,
        Position::Long { .. } => "Long"@,
    }
}

/// The name of a position.
pub fn position_label(p: &Position) -> (s: &'static str)
    ensures
        s@ == label_of(*p),
{
    match p {
        Position::Flat => "Flat",
        Position::ExternalInventory { .. } => "ExternalInventory",
        Position::Long { .. } => "Long",
    }
}

/// How much of the day's first equity is lost, as a fraction of it; zero where
/// there was none or nothing is lost.
pub fn daily_loss_fraction(daily_start_equity: i128, equity: i128) -> (r: i128)
    requires
        bounded(daily_start_equity as int),
        bounded(equity as int),
    ensures
        r == (if daily_start_equity <= 0 {
            0
        } else {
            max_of(quotient(daily_start_equity - equity, daily_start_equity as int), 0)
        }),
        equity >= daily_start_equity ==> r == 0,
        0 < daily_start_equity && equity <= daily_start_equity ==> -daily_start_equity <= 2 * (r
            * daily_start_equity - (daily_start_equity - equity) * ONE) <= daily_start_equity,
{
    if daily_start_equity <= 0 {
        return 0;
    }
    proof {
        crate::risk::law_drawdown_is_the_share_lost(daily_start_equity as int, equity as int);
    }
    max_fixed(div_fixed(daily_start_equity - equity, daily_start_equity), 0)
}

/// The keys that the audit log may hold.
pub open spec fn audit_keys() -> Seq<Seq<char>> {
    seq![
        "run_id"@,
        "event"@,
        "mode"@,
        "regime"@,
        "position"@,
        "action"@,
        "decision"@,
        "reason"@,
        "price"@,
        "stop"@,
        "qty"@,
        "notional"@,
        "entry_price"@,
        "atr14_5m"@,
        "stop_dist"@,
        "risk_frac_base"@,
        "risk_frac_effective"@,
        "cap_usdt"@,
        "was_capped"@,
        "min_notional"@,
        "equity_usdt"@,
        "peak_equity_usdt"@,
        "daily_loss_start_equity_usdt"@,
        "drawdown_frac"@,
        "daily_loss_frac"@,
        "trades_today"@,
        "max_trades_per_day"@,
    ]
}

/// Whether the audit log may hold a key.
pub fn audit_key_allowed(key: &str) -> (r: bool)
    ensures
        r == audit_keys().contains(key@),
{
    let keys: [&'static str; 27] = [
        "run_id",
        "event",
        "mode",
        "regime",
        "position",
        "action",
        "decision",
        "reason",
        "price",
        "stop",
        "qty",
        "notional",
        "entry_price",
        "atr14_5m",
        "stop_dist",
        "risk_frac_base",
        "risk_frac_effective",
        "cap_usdt",
        "was_capped",
        "min_notional",
        "equity_usdt",
        "peak_equity_usdt",
        "daily_loss_start_equity_usdt",
        "drawdown_frac",
        "daily_loss_frac",
        "trades_today",
        "max_trades_per_day",
    ];
    assert forall|k: int| 0 <= k < 27 implies (#[trigger] keys@[k])@ == audit_keys()[k] by {}
    let mut i: usize = 0;
    while i < 27
        invariant
            i <= 27,
            keys@.len() == 27,
            audit_keys().len() == 27,
            forall|k: int| 0 <= k < 27 ==> (#[trigger] keys@[k])@ == audit_keys()[k],
            forall|k: int| 0 <= k < i ==> audit_keys()[k] != key@,
        decreases 27 - i,
    {
        if same_text(key, keys[i]) {
            assert(audit_keys()[i as int] == key@);
            return true;
        }
        i += 1;
    }
    false
}

/// A value of an audit event. A number is kept in its written form.
#[derive(Clone, Debug)]
pub enum AuditValue {
    Null,
    Bool(bool),
    Number(String),
    Text(String),
    /// A list or an object.
    Nested,
}

/// The most characters that a text in the audit log may have.
pub const AUDIT_TEXT_MAX: usize = 200;

/// The content of an [`AuditValue`].
pub enum AuditView {
    Null,
    Bool(bool),
    Number(Seq<char>),
    Text(Seq<char>),
    Nested,
}

impl View for AuditValue {
    type V = AuditView;

    open spec fn view(&self) -> AuditView {
        match *self {
            AuditValue::Null => AuditView::Null,
            AuditValue::Bool(b) => AuditView::Bool(b),
            AuditValue::Number(n) => AuditView::Number(n@),
            AuditValue::Text(t) => AuditView::Text(t@),
            AuditValue::Nested => AuditView::Nested,
        }
    }
}

/// A field of an audit event.
#[derive(Clone, Debug)]
pub struct AuditField {
    pub key: String,
    pub value: AuditValue,
}

/// The contents of the fields of an audit event.
pub open spec fn field_views(fields: Seq<AuditField>) -> Seq<(Seq<char>, AuditView)> {
    Seq::new(fields.len(), |i: int| (fields[i].key@, fields[i].value@))
}

/// What the audit log keeps of a value: texts are cut, and nothing nested is kept.
pub open spec fn kept_value(v: AuditView) -> Option<AuditView> {
    match v {
        AuditView::Nested => None,
        AuditView::Text(t) => Some(AuditView::Text(cut(t, AUDIT_TEXT_MAX as int))),
        _ => Some(v),
    }
}

/// What the audit log keeps of one value.
pub fn audit_sanitize_scalar(v: &AuditValue) -> (r: Option<AuditValue>)
    ensures
        match r {
            Some(k) => kept_value(v@) == Some(k@),
            None => kept_value(v@) is None,
        },
{
    match v {
        AuditValue::Null => Some(AuditValue::Null),
        AuditValue::Bool(b) => Some(AuditValue::Bool(*b)),
        AuditValue::Number(n) => Some(AuditValue::Number(n.clone())),
        AuditValue::Text(t) => Some(
            AuditValue::Text(truncate_chars(t.as_str(), AUDIT_TEXT_MAX)),
        ),
        AuditValue::Nested => None,
    }
}

/// What the audit log keeps of the first `n` fields: the allowed ones that are not
/// nested.
pub open spec fn kept_fields(fields: Seq<(Seq<char>, AuditView)>, n: int) -> Seq<
    (Seq<char>, AuditView),
>
    decreases n,
{
    if n <= 0 {
        Seq::empty()
    } else {
        let before = kept_fields(fields, n - 1);
        let f = fields[n - 1];
        if audit_keys().contains(f.0) && kept_value(f.1) is Some {
            before.push((f.0, kept_value(f.1)->0))
        } else {
            before
        }
    }
}

/// What the audit log keeps of an event. See [`kept_fields`].
pub fn audit_sanitize(fields: &Vec<AuditField>) -> (r: Vec<AuditField>)
    ensures
        field_views(r@) == kept_fields(field_views(fields@), fields@.len() as int),
{
    let mut out: Vec<AuditField> = Vec::new();
    let ghost views = field_views(fields@);
    assert(field_views(out@) =~= Seq::empty());
    let mut i: usize = 0;
    while i < fields.len()
        invariant
            i <= fields@.len(),
            views == field_views(fields@),
            field_views(out@) == kept_fields(views, i as int),
        decreases fields@.len() - i,
    {
        let f: &AuditField = &fields[i];
        assert(views[i as int] == (f.key@, f.value@));
        if audit_key_allowed(f.key.as_str()) {
            if let Some(value) = audit_sanitize_scalar(&f.value) {
                let ghost before = out@;
                out.push(AuditField { key: f.key.clone(), value });
                assert(field_views(out@) =~= field_views(before).push(
                    (f.key@, kept_value(f.value@)->0),
                ));
            }
        }
        i += 1;
    }
    out
}

/// The audit log holds allowed keys only, no nested value, and no text of more
/// than 200 characters.
pub proof fn law_audit_log_is_clean(fields: Seq<(Seq<char>, AuditView)>, n: int, i: int)
    requires
        0 <= n <= fields.len(),
        0 <= i < kept_fields(fields, n).len(),
    ensures
        ({
            let (key, value) = kept_fields(fields, n)[i];
            &&& audit_keys().contains(key)
            &&& !(value is Nested)
            &&& value is Text ==> value->Text_0.len() <= AUDIT_TEXT_MAX
        }),
    decreases n,
{
    let before = kept_fields(fields, n - 1);
    if i < before.len() {
        law_audit_log_is_clean(fields, n - 1, i);
    }
}

/// How the day opens, in numbers: the bot is dead where it was and is not brought back, or
/// where it stands at four fifths of its anchor or less; alive, it reaches the milestone at six
/// fifths of the anchor or more.
pub proof fn law_day_opens_by_the_anchor(st: BotState, revive: bool)
    ensures
        ({
            let o = opening(st, revive);
            let anchored = st.start_equity_usdt > 0;
            let low = anchored && 5 * st.equity_usdt <= 4 * st.start_equity_usdt;
            let high = anchored && 5 * st.equity_usdt >= 6 * st.start_equity_usdt;
            &&& o.revived <==> st.is_dead && revive && anchored && !low
            &&& o.died_now <==> !st.is_dead && low
            &&& o.dead <==> (st.is_dead && !o.revived) || o.died_now
            &&& o.milestone <==> (!st.is_dead || o.revived) && !low && high
        }),
{
}

/// What opening the day does to the state: the anchor becomes the equity at the milestone, or
/// where a living bot has none; the milestone unlocks the profit, counts one bump and reduces the
/// risk for the given hours; nothing else changes but whether the bot is dead.
pub proof fn law_opened_day_in_the_state(
    st: BotState,
    revive: bool,
    now_ms: u64,
    reduce_hours: u64,
)
    requires
        now_ms + reduce_hours * 3_600_000 <= u64::MAX,
    ensures
        ({
            let o = opening(st, revive);
            let s = opened_state(st, revive, now_ms, reduce_hours);
            &&& s.is_dead == o.dead
            &&& o.milestone ==> {
                &&& s.start_equity_usdt == st.equity_usdt
                &&& s.profit_unlocked
                &&& st.anchor_bumps < u32::MAX ==> s.anchor_bumps == st.anchor_bumps + 1
                &&& s.risk_reduction_until_ms - now_ms == reduce_hours * 3_600_000
            }
            &&& !o.milestone ==> {
                &&& s.profit_unlocked == st.profit_unlocked
                &&& s.anchor_bumps == st.anchor_bumps
                &&& s.risk_reduction_until_ms == st.risk_reduction_until_ms
                &&& st.start_equity_usdt > 0 || o.dead ==> s.start_equity_usdt
                    == st.start_equity_usdt
                &&& st.start_equity_usdt <= 0 && !o.dead ==> s.start_equity_usdt == st.equity_usdt
            }
            &&& s.equity_usdt == st.equity_usdt
            &&& s.position == st.position
            &&& s.trades_today == st.trades_today
            &&& s.peak_equity_usdt == st.peak_equity_usdt
        }),
{
}

/// The risk is raised by a quarter once the profit is unlocked, and scaled by the true range;
/// while it is reduced it is scaled by the reduction too, each to half a step.
pub proof fn law_risk_factor_is_a_product(
    st: BotState,
    now_ms: u64,
    reduce_mult: Option<i128>,
    atr_ratio: Option<i128>,
)
    requires
        reduce_mult is Some ==> reduce_mult->0 <= 100 * ONE,
        atr_ratio is Some ==> bounded(atr_ratio->0 as int),
    ensures
        ({
            let f = risk_factor(st, now_ms, reduce_mult, atr_ratio);
            let a = atr_multiplier(atr_ratio);
            let base = if st.profit_unlocked {
                1_250_000_000_000int
            } else {
                1_000_000_000_000int
            };
            let reduces = now_ms < st.risk_reduction_until_ms && reduce_mult is Some
                && reduce_mult->0 > 0;
            &&& !reduces ==> -ONE <= 2 * (f * ONE - base * a) <= ONE
            &&& reduces ==> exists|b: int|
                -ONE <= 2 * (b * ONE - base * reduce_mult->0) <= ONE && -ONE <= 2 * (f * ONE
                    - #[trigger] (b * a)) <= ONE
        }),
{
    let a = atr_multiplier(atr_ratio);
    let base = if st.profit_unlocked {
        1_250_000_000_000int
    } else {
        1_000_000_000_000int
    };
    let m = if reduce_mult is Some && reduce_mult->0 > 0 {
        reduce_mult->0 as int
    } else {
        ONE as int
    };
    assert(0 <= a <= ONE);
    let one = ONE as int;
    let n = base * m;
    assert(0 <= n <= 125 * ONE * ONE) by (nonlinear_arith)
        requires
            n == base * m,
            0 <= base <= 1_250_000_000_000,
            0 <= m <= 100 * ONE,
    ;
    crate::fixed::lemma_round_div_error(n, one);
    let reduced = product(base, m);
    lemma_in_range_product(base, a);
    lemma_in_range_product(reduced, a);
    crate::fixed::lemma_round_div_error(base * a, one);
    crate::fixed::lemma_round_div_error(reduced * a, one);
    if now_ms < st.risk_reduction_until_ms && reduce_mult is Some && reduce_mult->0 > 0 {
        let f = risk_factor(st, now_ms, reduce_mult, atr_ratio);
        assert(f == product(reduced, a));
        assert(-ONE <= 2 * (reduced * ONE - base * reduce_mult->0) <= ONE && -ONE <= 2 * (f * ONE
            - reduced * a) <= ONE);
    }
}

proof fn lemma_in_range_product(x: int, a: int)
    requires
        -1 <= x <= 1_000 * ONE,
        0 <= a <= ONE,
    ensures
        bounded(product(x, a)),
        bounded(x),
{
    assert(-ONE <= x * a <= 1_000 * ONE * ONE) by (nonlinear_arith)
        requires
            -1 <= x <= 1_000 * ONE,
            0 <= a <= ONE,
    ;
    crate::fixed::lemma_round_div_error(x * a, ONE as int);
}

/// The age of the candles is the time since the newest one opened; one from the future is new.
pub proof fn law_age_counts_from_the_newest_candle(candles: Seq<Candle>, now_ms: u64)
    ensures
        candle_age(candles, now_ms) is None <==> candles.len() == 0,
        candles.len() > 0 && 0 <= candles.last().open_time <= now_ms ==> candle_age(
            candles,
            now_ms,
        )->0 + candles.last().open_time == now_ms,
        candles.len() > 0 && candles.last().open_time > now_ms ==> candle_age(candles, now_ms)->0
            == 0,
{
}

/// After a real order the books are closed on a fresh wallet alone: with it the equity is what
/// the wallet is worth, without it the state stays, and only a refused key is no failure.
/// Without a real order the run's own equity is taken over.
pub proof fn law_books_close_on_the_wallet(
    before: TickView,
    refresh: Refresh,
    equity_usdt: i128,
    today: Seq<char>,
    r: Result<(), ()>,
    after: BotState,
)
    requires
        closed(before, refresh, equity_usdt, today, r, after),
    ensures
        ({
            let ordered = before.base.set.mode == Mode::Live && before.did_place_order;
            &&& r is Err <==> ordered && !(refresh is Wallet) && !(refresh is Rejected)
            &&& ordered && !(refresh is Wallet) ==> after == before.state
            &&& ordered && refresh is Wallet ==> after.equity_usdt == refresh->wallet.worth(
                before.base.market.price as int,
            ) as i128
            &&& !ordered ==> after.equity_usdt == equity_usdt
        }),
{
}

/// One more field is written exactly where its key is allowed and its value is no nested one; a
/// text is cut to its first characters, anything else is written as it is.
pub proof fn law_allowed_fields_are_kept(
    fields: Seq<(Seq<char>, AuditView)>,
    key: Seq<char>,
    v: AuditView,
)
    ensures
        ({
            let n = fields.len() as int;
            let before = kept_fields(fields, n);
            let after = kept_fields(fields.push((key, v)), n + 1);
            &&& audit_keys().contains(key) && !(v is Nested) ==> {
                &&& after.len() == before.len() + 1
                &&& after.take(before.len() as int) =~= before
                &&& after.last().0 == key
                &&& !(v is Text) ==> after.last().1 == v
                &&& v is Text && v->Text_0.len() <= AUDIT_TEXT_MAX ==> after.last().1 == v
                &&& v is Text && v->Text_0.len() > AUDIT_TEXT_MAX ==> after.last().1
                    == AuditView::Text(v->Text_0.take(AUDIT_TEXT_MAX as int))
            }
            &&& !audit_keys().contains(key) || v is Nested ==> after == before
        }),
{
    lemma_kept_prefix(fields, fields.push((key, v)), fields.len() as int);
}

proof fn lemma_kept_prefix(
    a: Seq<(Seq<char>, AuditView)>,
    b: Seq<(Seq<char>, AuditView)>,
    n: int,
)
    requires
        0 <= n <= a.len(),
        n <= b.len(),
        forall|i: int| 0 <= i < n ==> a[i] == #[trigger] b[i],
    ensures
        kept_fields(a, n) == kept_fields(b, n),
    decreases n,
{
    if n > 0 {
        lemma_kept_prefix(a, b, n - 1);
        assert(a[n - 1] == b[n - 1]);
    }
}

} // verus!
