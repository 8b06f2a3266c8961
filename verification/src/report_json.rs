//! The data of a backtest as JSON.
use crate::backtest::{trade_views, BacktestConfig, CurvePoint};
use crate::metrics::{BacktestMetrics, BacktestReport, RegimeBars, RegimeStats, ScoreBucket};
use crate::regime::regime_text;
use crate::telemetry::{FeatureSnapshot, TradeRecord, TradeView};
use crate::text::{chars_of, fixed_string, fixed_text, nat_text, u64_string};
use vstd::prelude::*;

verus! {

/// A number with all its digits.
pub open spec fn number_text(v: int) -> Seq<char> {
    fixed_text(v, 12)
}

fn number_string(v: i128) -> (s: String)
    ensures
        s@ == number_text(v as int),
{
    fixed_string(v, 12)
}

/// A number, or `null`.
pub open spec fn optional_text(v: Option<i128>) -> Seq<char> {
    match v {
        Some(x) => number_text(x as int),
        None => "null"@,
    }
}

fn optional_string(v: Option<i128>) -> (s: String)
    ensures
        s@ == optional_text(v),
{
    match v {
        Some(x) => number_string(x),
        None => String::from_str("null"),
    }
}

/// A count, or `null`.
pub open spec fn optional_count_text(v: Option<u64>) -> Seq<char> {
    match v {
        Some(x) => nat_text(x as nat),
        None => "null"@,
    }
}

fn optional_count_string(v: Option<u64>) -> (s: String)
    ensures
        s@ == optional_count_text(v),
{
    match v {
        Some(x) => u64_string(x),
        None => String::from_str("null"),
    }
}

/// A yes or a no.
pub open spec fn flag_text(v: bool) -> Seq<char> {
    if v {
        "true"@
    } else {
        "false"@
    }
}

fn flag_word(v: bool) -> (s: &'static str)
    ensures
        s@ == flag_text(v),
{
    if v {
        "true"
    } else {
        "false"
    }
}

/// A hexadecimal digit.
pub open spec fn hex_digit(v: int) -> char {
    if v < 10 {
        ((48 + v) as u8) as char
    } else {
        ((87 + v) as u8) as char
    }
}

fn hex_of(v: u8) -> (c: char)
    requires
        v < 16,
    ensures
        c == hex_digit(v as int),
{
    if v < 10 {
        (48 + v) as char
    } else {
        (87 + v) as char
    }
}

/// A character inside quotes. Quotes, backslashes and control characters are
/// escaped, and so is `<`, with which the page around the data could end it.
pub open spec fn escaped(c: char) -> Seq<char> {
    if c == '"' {
        seq!['\\', '"']
    } else if c == '\\' {
        seq!['\\', '\\']
    } else if (c as u32) < 32 || c == '<' {
        let code = (c as u32) as int;
        seq!['\\', 'u', '0', '0', hex_digit(code / 16), hex_digit(code % 16)]
    } else {
        seq![c]
    }
}

/// The first `n` characters of a text, as they stand inside quotes.
pub open spec fn escaped_text(t: Seq<char>, n: int) -> Seq<char>
    decreases n,
{
    if n <= 0 {
        Seq::empty()
    } else {
        escaped_text(t, n - 1) + escaped(t[n - 1])
    }
}

/// No text can end the page's block of data: a text in quotes has no `<`.
pub proof fn law_quoted_text_stays_in_its_block(t: Seq<char>, n: int, i: int)
    requires
        0 <= n <= t.len(),
        0 <= i < escaped_text(t, n).len(),
    ensures
        escaped_text(t, n)[i] != '<',
    decreases n,
{
    let before = escaped_text(t, n - 1);
    if i < before.len() {
        law_quoted_text_stays_in_its_block(t, n - 1, i);
    } else {
        let c = t[n - 1];
        let e = escaped(c);
        let k = i - before.len();
        assert(escaped_text(t, n)[i] == e[k]);
        let code = (c as u32) as int;
        lemma_hex_digit(code % 16);
        if code < 32 || c == '<' {
            lemma_hex_digit(code / 16);
        }
        assert(k == 0 || k == 1 || k == 2 || k == 3 || k == 4 || k == 5);
    }
}

proof fn lemma_hex_digit(v: int)
    requires
        0 <= v < 16,
    ensures
        hex_digit(v) != '<',
{
    assert(hex_digit(v) as int != '<' as int);
}

fn put_escaped(out: &mut String, c: char)
    ensures
        final(out)@ == old(out)@ + escaped(c),
{
    if c == '"' {
        out.push('\\');
        out.push('"');
    } else if c == '\\' {
        out.push('\\');
        out.push('\\');
    } else if (c as u32) < 32 || c == '<' {
        let code: u8 = (c as u32) as u8;
        assert(code == c as u32);
        let high: char = hex_of(code / 16);
        let low: char = hex_of(code % 16);
        out.push('\\');
        out.push('u');
        out.push('0');
        out.push('0');
        out.push(high);
        out.push(low);
    } else {
        out.push(c);
    }
    assert(out@ =~= old(out)@ + escaped(c));
}

/// A text in quotes.
pub open spec fn quoted(t: Seq<char>) -> Seq<char> {
    "\""@ + escaped_text(t, t.len() as int) + "\""@
}

fn quoted_string(t: &str) -> (s: String)
    ensures
        s@ == quoted(t@),
{
    let chars: Vec<char> = chars_of(t);
    let mut s: String = String::from_str("\"");
    let mut i: usize = 0;
    while i < chars.len()
        invariant
            i <= chars@.len(),
            chars@ == t@,
            s@ == "\""@ + escaped_text(t@, i as int),
        decreases chars@.len() - i,
    {
        let c: char = chars[i];
        put_escaped(&mut s, c);
        assert(s@ =~= "\""@ + (escaped_text(t@, i as int) + escaped(c)));
        i += 1;
    }
    s.append("\"");
    s
}

/// A text in quotes, or `null`.
pub open spec fn optional_quoted(t: Option<Seq<char>>) -> Seq<char> {
    match t {
        Some(x) => quoted(x),
        None => "null"@,
    }
}

fn optional_quoted_string(t: &Option<String>) -> (s: String)
    ensures
        s@ == optional_quoted(
            match t {
                Some(x) => Some(x@),
                None => None,
            },
        ),
{
    match t {
        Some(x) => quoted_string(x.as_str()),
        None => String::from_str("null"),
    }
}

/// The first member of an object, with the bracket before it.
pub open spec fn first_member(name: Seq<char>, value: Seq<char>) -> Seq<char> {
    "{\""@ + name + "\":"@ + value
}

/// A further member of an object.
pub open spec fn member(name: Seq<char>, value: Seq<char>) -> Seq<char> {
    ",\""@ + name + "\":"@ + value
}

fn put_first(out: &mut String, name: &str, value: &str)
    requires
        old(out)@.len() == 0,
    ensures
        final(out)@ == first_member(name@, value@),
{
    out.append("{\"");
    out.append(name);
    out.append("\":");
    out.append(value);
    assert(out@ =~= first_member(name@, value@));
}

fn put(out: &mut String, name: &str, value: &str)
    ensures
        final(out)@ == old(out)@ + member(name@, value@),
{
    out.append(",\"");
    out.append(name);
    out.append("\":");
    out.append(value);
    assert(out@ =~= old(out)@ + member(name@, value@));
}

/// What stands before the element at position `i` of a list.
pub open spec fn comma_text(i: int) -> Seq<char> {
    if i > 0 {
        ","@
    } else {
        ""@
    }
}

fn comma(i: usize) -> (s: &'static str)
    ensures
        s@ == comma_text(i as int),
{
    if i > 0 {
        ","
    } else {
        ""
    }
}

/// A list in brackets.
pub open spec fn listed(elements: Seq<char>) -> Seq<char> {
    "["@ + elements + "]"@
}

fn list(elements: String) -> (s: String)
    ensures
        s@ == listed(elements@),
{
    let mut s: String = String::from_str("[");
    s.append(elements.as_str());
    s.append("]");
    s
}

/// The settings of a backtest.
#[verifier::opaque]
pub open spec fn config_json(c: BacktestConfig) -> Seq<char> {
    first_member("starting_capital"@, number_text(c.starting_capital as int))
        + member("fee_rate"@, number_text(c.fee_rate as int))
        + member("slippage_pct"@, number_text(c.slippage_pct as int))
        + member("risk_fraction"@, number_text(c.risk_fraction as int))
        + member("max_risk_usdt"@, number_text(c.max_risk_usdt as int))
        + member("max_notional_fraction"@, number_text(c.max_notional_fraction as int))
        + "}"@
}

fn config_object(c: &BacktestConfig) -> (s: String)
    ensures
        s@ == config_json(*c),
{
    proof {
        reveal(config_json);
    }
    let mut s: String = String::new();
    put_first(&mut s, "starting_capital", number_string(c.starting_capital).as_str());
    put(&mut s, "fee_rate", number_string(c.fee_rate).as_str());
    put(&mut s, "slippage_pct", number_string(c.slippage_pct).as_str());
    put(&mut s, "risk_fraction", number_string(c.risk_fraction).as_str());
    put(&mut s, "max_risk_usdt", number_string(c.max_risk_usdt).as_str());
    put(&mut s, "max_notional_fraction", number_string(c.max_notional_fraction).as_str());
    s.append("}");
    s
}

/// The figures of a backtest.
#[verifier::opaque]
pub open spec fn metrics_json(m: BacktestMetrics, sharpe: i128) -> Seq<char> {
    first_member("final_equity"@, number_text(m.final_equity as int))
        + member("total_return_pct"@, number_text(m.total_return_pct as int))
        + member("max_drawdown_pct"@, number_text(m.max_drawdown_pct as int))
        + member("sharpe_ratio"@, number_text(sharpe as int))
        + member("profit_factor"@, optional_text(m.profit_factor))
        + member("win_rate"@, number_text(m.win_rate as int))
        + member("trade_count"@, nat_text(m.trade_count as nat))
        + member("winning_trades"@, nat_text(m.winning_trades as nat))
        + member("losing_trades"@, nat_text(m.losing_trades as nat))
        + member("avg_winner_pct"@, number_text(m.avg_winner_pct as int))
        + member("avg_loser_pct"@, number_text(m.avg_loser_pct as int))
        + member("avg_trade_duration_ms"@, nat_text(m.avg_trade_duration_ms as nat))
        + member("total_fees_usdt"@, number_text(m.total_fees_usdt as int))
        + member("total_slippage_usdt"@, number_text(m.total_slippage_usdt as int))
        + "}"@
}

fn metrics_object(m: &BacktestMetrics, sharpe: i128) -> (s: String)
    ensures
        s@ == metrics_json(*m, sharpe),
{
    proof {
        reveal(metrics_json);
    }
    let mut s: String = String::new();
    put_first(&mut s, "final_equity", number_string(m.final_equity).as_str());
    put(&mut s, "total_return_pct", number_string(m.total_return_pct).as_str());
    put(&mut s, "max_drawdown_pct", number_string(m.max_drawdown_pct).as_str());
    put(&mut s, "sharpe_ratio", number_string(sharpe).as_str());
    put(&mut s, "profit_factor", optional_string(m.profit_factor).as_str());
    put(&mut s, "win_rate", number_string(m.win_rate).as_str());
    put(&mut s, "trade_count", u64_string(m.trade_count as u64).as_str());
    put(&mut s, "winning_trades", u64_string(m.winning_trades as u64).as_str());
    put(&mut s, "losing_trades", u64_string(m.losing_trades as u64).as_str());
    put(&mut s, "avg_winner_pct", number_string(m.avg_winner_pct).as_str());
    put(&mut s, "avg_loser_pct", number_string(m.avg_loser_pct).as_str());
    put(&mut s, "avg_trade_duration_ms", u64_string(m.avg_trade_duration_ms).as_str());
    put(&mut s, "total_fees_usdt", number_string(m.total_fees_usdt).as_str());
    put(&mut s, "total_slippage_usdt", number_string(m.total_slippage_usdt).as_str());
    s.append("}");
    s
}

/// A bucket of scores.
#[verifier::opaque]
pub open spec fn bucket_json(b: ScoreBucket) -> Seq<char> {
    first_member("label"@, quoted(b.label@))
        + member("range_low"@, number_text(b.range_low as int))
        + member("range_high"@, number_text(b.range_high as int))
        + member("count"@, nat_text(b.summary.count as nat))
        + member("wins"@, nat_text(b.summary.wins as nat))
        + member("win_rate"@, number_text(b.summary.win_rate as int))
        + member("avg_return_pct"@, number_text(b.summary.avg_return_pct as int))
        + member("expectancy_pct"@, number_text(b.summary.expectancy_pct as int))
        + member("profit_factor"@, optional_text(b.summary.profit_factor))
        + "}"@
}

fn bucket_object(b: &ScoreBucket) -> (s: String)
    ensures
        s@ == bucket_json(*b),
{
    proof {
        reveal(bucket_json);
    }
    let mut s: String = String::new();
    put_first(&mut s, "label", quoted_string(b.label).as_str());
    put(&mut s, "range_low", number_string(b.range_low).as_str());
    put(&mut s, "range_high", number_string(b.range_high).as_str());
    put(&mut s, "count", u64_string(b.summary.count as u64).as_str());
    put(&mut s, "wins", u64_string(b.summary.wins as u64).as_str());
    put(&mut s, "win_rate", number_string(b.summary.win_rate).as_str());
    put(&mut s, "avg_return_pct", number_string(b.summary.avg_return_pct).as_str());
    put(&mut s, "expectancy_pct", number_string(b.summary.expectancy_pct).as_str());
    put(&mut s, "profit_factor", optional_string(b.summary.profit_factor).as_str());
    s.append("}");
    s
}

/// The trades of a regime.
#[verifier::opaque]
pub open spec fn regime_json(b: RegimeStats) -> Seq<char> {
    first_member("regime"@, quoted(regime_text(b.regime)))
        + member("trades"@, nat_text(b.summary.count as nat))
        + member("wins"@, nat_text(b.summary.wins as nat))
        + member("win_rate"@, number_text(b.summary.win_rate as int))
        + member("avg_return_pct"@, number_text(b.summary.avg_return_pct as int))
        + member("expectancy_pct"@, number_text(b.summary.expectancy_pct as int))
        + member("profit_factor"@, optional_text(b.summary.profit_factor))
        + "}"@
}

fn regime_object(b: &RegimeStats) -> (s: String)
    ensures
        s@ == regime_json(*b),
{
    proof {
        reveal(regime_json);
    }
    let mut s: String = String::new();
    put_first(&mut s, "regime", quoted_string(b.regime.name()).as_str());
    put(&mut s, "trades", u64_string(b.summary.count as u64).as_str());
    put(&mut s, "wins", u64_string(b.summary.wins as u64).as_str());
    put(&mut s, "win_rate", number_string(b.summary.win_rate).as_str());
    put(&mut s, "avg_return_pct", number_string(b.summary.avg_return_pct).as_str());
    put(&mut s, "expectancy_pct", number_string(b.summary.expectancy_pct).as_str());
    put(&mut s, "profit_factor", optional_string(b.summary.profit_factor).as_str());
    s.append("}");
    s
}

/// The features at an entry.
#[verifier::opaque]
pub open spec fn features_json(f: FeatureSnapshot) -> Seq<char> {
    first_member("ema20_5m"@, number_text(f.ema20_5m as int))
        + member("ema50_5m"@, number_text(f.ema50_5m as int))
        + member("ema20_1h"@, number_text(f.ema20_1h as int))
        + member("ema50_1h"@, number_text(f.ema50_1h as int))
        + member("ema200_1h"@, number_text(f.ema200_1h as int))
        + member("atr14_5m"@, number_text(f.atr14_5m as int))
        + member("atr_ratio_5m"@, number_text(f.atr_ratio_5m as int))
        + member("bb_mid20_5m"@, number_text(f.bb_mid20_5m as int))
        + member("bb_width_5m"@, number_text(f.bb_width_5m as int))
        + member("rsi14_5m"@, number_text(f.rsi14_5m as int))
        + member("rsi14_1m"@, number_text(f.rsi14_1m as int))
        + member("volume_z"@, number_text(f.volume_z as int))
        + member("rv_short"@, number_text(f.rv_short as int))
        + member("rv_long"@, number_text(f.rv_long as int))
        + member("velocity_1m"@, number_text(f.velocity_1m as int))
        + member("velocity_5m"@, number_text(f.velocity_5m as int))
        + member("trend_strength"@, number_text(f.trend_strength as int))
        + member("vol_ratio"@, number_text(f.vol_ratio as int))
        + member("htf_bullish"@, flag_text(f.htf_bullish))
        + member("bearish_bias"@, flag_text(f.bearish_bias))
        + member("vol_squeeze"@, flag_text(f.vol_squeeze))
        + "}"@
}

fn features_object(f: &FeatureSnapshot) -> (s: String)
    ensures
        s@ == features_json(*f),
{
    proof {
        reveal(features_json);
    }
    let mut s: String = String::new();
    put_first(&mut s, "ema20_5m", number_string(f.ema20_5m).as_str());
    put(&mut s, "ema50_5m", number_string(f.ema50_5m).as_str());
    put(&mut s, "ema20_1h", number_string(f.ema20_1h).as_str());
    put(&mut s, "ema50_1h", number_string(f.ema50_1h).as_str());
    put(&mut s, "ema200_1h", number_string(f.ema200_1h).as_str());
    put(&mut s, "atr14_5m", number_string(f.atr14_5m).as_str());
    put(&mut s, "atr_ratio_5m", number_string(f.atr_ratio_5m).as_str());
    put(&mut s, "bb_mid20_5m", number_string(f.bb_mid20_5m).as_str());
    put(&mut s, "bb_width_5m", number_string(f.bb_width_5m).as_str());
    put(&mut s, "rsi14_5m", number_string(f.rsi14_5m).as_str());
    put(&mut s, "rsi14_1m", number_string(f.rsi14_1m).as_str());
    put(&mut s, "volume_z", number_string(f.volume_z).as_str());
    put(&mut s, "rv_short", number_string(f.rv_short).as_str());
    put(&mut s, "rv_long", number_string(f.rv_long).as_str());
    put(&mut s, "velocity_1m", number_string(f.velocity_1m).as_str());
    put(&mut s, "velocity_5m", number_string(f.velocity_5m).as_str());
    put(&mut s, "trend_strength", number_string(f.trend_strength).as_str());
    put(&mut s, "vol_ratio", number_string(f.vol_ratio).as_str());
    put(&mut s, "htf_bullish", flag_word(f.htf_bullish));
    put(&mut s, "bearish_bias", flag_word(f.bearish_bias));
    put(&mut s, "vol_squeeze", flag_word(f.vol_squeeze));
    s.append("}");
    s
}

/// A trade.
#[verifier::opaque]
pub open spec fn trade_json(t: TradeView) -> Seq<char> {
    first_member("trade_id"@, quoted(t.trade_id))
        + member("symbol"@, quoted(t.symbol))
        + member("regime"@, quoted(regime_text(t.regime)))
        + member("strategy"@, quoted(t.strategy))
        + member("score"@, number_text(t.score as int))
        + member("entry_time_ms"@, nat_text(t.entry_time_ms as nat))
        + member("entry_price"@, number_text(t.entry_price as int))
        + member("qty"@, number_text(t.qty as int))
        + member("position_value_usdt"@, number_text(t.position_value_usdt as int))
        + member("stop_price"@, number_text(t.stop_price as int))
        + member("tp_price"@, optional_text(t.tp_price))
        + member("exit_time_ms"@, optional_count_text(t.exit_time_ms))
        + member("exit_price"@, optional_text(t.exit_price))
        + member("exit_reason"@, optional_quoted(t.exit_reason))
        + member("gross_pnl_usdt"@, optional_text(t.gross_pnl_usdt))
        + member("entry_fee_usdt"@, optional_text(t.entry_fee_usdt))
        + member("exit_fee_usdt"@, optional_text(t.exit_fee_usdt))
        + member("net_pnl_usdt"@, optional_text(t.net_pnl_usdt))
        + member("slippage_usdt"@, optional_text(t.slippage_usdt))
        + member("mfe_usdt"@, optional_text(t.mfe_usdt))
        + member("mae_usdt"@, optional_text(t.mae_usdt))
        + member("duration_ms"@, optional_count_text(t.duration_ms))
        + member("features"@, features_json(t.features))
        + "}"@
}

fn trade_object(t: &TradeRecord) -> (s: String)
    ensures
        s@ == trade_json(t@),
{
    proof {
        reveal(trade_json);
    }
    let mut s: String = String::new();
    put_first(&mut s, "trade_id", quoted_string(t.trade_id.as_str()).as_str());
    put(&mut s, "symbol", quoted_string(t.symbol.as_str()).as_str());
    put(&mut s, "regime", quoted_string(t.regime.name()).as_str());
    put(&mut s, "strategy", quoted_string(t.strategy.as_str()).as_str());
    put(&mut s, "score", number_string(t.score).as_str());
    put(&mut s, "entry_time_ms", u64_string(t.entry_time_ms).as_str());
    put(&mut s, "entry_price", number_string(t.entry_price).as_str());
    put(&mut s, "qty", number_string(t.qty).as_str());
    put(&mut s, "position_value_usdt", number_string(t.position_value_usdt).as_str());
    put(&mut s, "stop_price", number_string(t.stop_price).as_str());
    put(&mut s, "tp_price", optional_string(t.tp_price).as_str());
    put(&mut s, "exit_time_ms", optional_count_string(t.exit_time_ms).as_str());
    put(&mut s, "exit_price", optional_string(t.exit_price).as_str());
    put(&mut s, "exit_reason", optional_quoted_string(&t.exit_reason).as_str());
    put(&mut s, "gross_pnl_usdt", optional_string(t.gross_pnl_usdt).as_str());
    put(&mut s, "entry_fee_usdt", optional_string(t.entry_fee_usdt).as_str());
    put(&mut s, "exit_fee_usdt", optional_string(t.exit_fee_usdt).as_str());
    put(&mut s, "net_pnl_usdt", optional_string(t.net_pnl_usdt).as_str());
    put(&mut s, "slippage_usdt", optional_string(t.slippage_usdt).as_str());
    put(&mut s, "mfe_usdt", optional_string(t.mfe_usdt).as_str());
    put(&mut s, "mae_usdt", optional_string(t.mae_usdt).as_str());
    put(&mut s, "duration_ms", optional_count_string(t.duration_ms).as_str());
    put(&mut s, "features", features_object(&t.features).as_str());
    s.append("}");
    s
}

/// A point of a curve: its time and its value.
pub open spec fn point_json(p: CurvePoint) -> Seq<char> {
    "["@ + nat_text(p.time_ms as nat) + ","@ + number_text(p.value as int) + "]"@
}

fn point_pair(p: &CurvePoint) -> (s: String)
    ensures
        s@ == point_json(*p),
{
    let mut s: String = String::from_str("[");
    s.append(u64_string(p.time_ms).as_str());
    s.append(",");
    s.append(number_string(p.value).as_str());
    s.append("]");
    s
}

/// A regime and how many bars it has.
pub open spec fn count_json(c: RegimeBars) -> Seq<char> {
    "["@ + quoted(regime_text(c.regime)) + ","@ + nat_text(c.bars as nat) + "]"@
}

fn count_pair(c: &RegimeBars) -> (s: String)
    ensures
        s@ == count_json(*c),
{
    let mut s: String = String::from_str("[");
    s.append(quoted_string(c.regime.name()).as_str());
    s.append(",");
    s.append(u64_string(c.bars as u64).as_str());
    s.append("]");
    s
}

/// The first `n` points of a curve.
pub open spec fn points_json(rows: Seq<CurvePoint>, n: int) -> Seq<char>
    decreases n,
{
    if n <= 0 {
        Seq::empty()
    } else {
        points_json(rows, n - 1) + comma_text(n - 1) + point_json(rows[n - 1])
    }
}

fn point_pairs(rows: &Vec<CurvePoint>) -> (s: String)
    ensures
        s@ == points_json(rows@, rows@.len() as int),
{
    let mut s: String = String::new();
    let mut i: usize = 0;
    while i < rows.len()
        invariant
            i <= rows@.len(),
            s@ == points_json(rows@, i as int),
        decreases rows@.len() - i,
    {
        s.append(comma(i));
        s.append(point_pair(&rows[i]).as_str());
        i += 1;
    }
    s
}

/// The first `n` counts.
pub open spec fn counts_json(rows: Seq<RegimeBars>, n: int) -> Seq<char>
    decreases n,
{
    if n <= 0 {
        Seq::empty()
    } else {
        counts_json(rows, n - 1) + comma_text(n - 1) + count_json(rows[n - 1])
    }
}

fn count_pairs(rows: &Vec<RegimeBars>) -> (s: String)
    ensures
        s@ == counts_json(rows@, rows@.len() as int),
{
    let mut s: String = String::new();
    let mut i: usize = 0;
    while i < rows.len()
        invariant
            i <= rows@.len(),
            s@ == counts_json(rows@, i as int),
        decreases rows@.len() - i,
    {
        s.append(comma(i));
        s.append(count_pair(&rows[i]).as_str());
        i += 1;
    }
    s
}

/// The first `n` buckets.
pub open spec fn buckets_json(rows: Seq<ScoreBucket>, n: int) -> Seq<char>
    decreases n,
{
    if n <= 0 {
        Seq::empty()
    } else {
        buckets_json(rows, n - 1) + comma_text(n - 1) + bucket_json(rows[n - 1])
    }
}

fn bucket_objects(rows: &Vec<ScoreBucket>) -> (s: String)
    ensures
        s@ == buckets_json(rows@, rows@.len() as int),
{
    let mut s: String = String::new();
    let mut i: usize = 0;
    while i < rows.len()
        invariant
            i <= rows@.len(),
            s@ == buckets_json(rows@, i as int),
        decreases rows@.len() - i,
    {
        s.append(comma(i));
        s.append(bucket_object(&rows[i]).as_str());
        i += 1;
    }
    s
}

/// The first `n` regimes.
pub open spec fn regimes_json(rows: Seq<RegimeStats>, n: int) -> Seq<char>
    decreases n,
{
    if n <= 0 {
        Seq::empty()
    } else {
        regimes_json(rows, n - 1) + comma_text(n - 1) + regime_json(rows[n - 1])
    }
}

fn regime_objects(rows: &Vec<RegimeStats>) -> (s: String)
    ensures
        s@ == regimes_json(rows@, rows@.len() as int),
{
    let mut s: String = String::new();
    let mut i: usize = 0;
    while i < rows.len()
        invariant
            i <= rows@.len(),
            s@ == regimes_json(rows@, i as int),
        decreases rows@.len() - i,
    {
        s.append(comma(i));
        s.append(regime_object(&rows[i]).as_str());
        i += 1;
    }
    s
}

/// The first `n` trades.
pub open spec fn trades_json(rows: Seq<TradeView>, n: int) -> Seq<char>
    decreases n,
{
    if n <= 0 {
        Seq::empty()
    } else {
        trades_json(rows, n - 1) + comma_text(n - 1) + trade_json(rows[n - 1])
    }
}

fn trade_objects(rows: &Vec<TradeRecord>) -> (s: String)
    ensures
        s@ == trades_json(trade_views(rows@), rows@.len() as int),
{
    let mut s: String = String::new();
    let mut i: usize = 0;
    while i < rows.len()
        invariant
            i <= rows@.len(),
            s@ == trades_json(trade_views(rows@), i as int),
        decreases rows@.len() - i,
    {
        assert(trade_views(rows@)[i as int] == rows@[i as int]@);
        s.append(comma(i));
        s.append(trade_object(&rows[i]).as_str());
        i += 1;
    }
    s
}

/// A report as one object: the settings, every trade, the curves and the figures.
pub open spec fn report_json(r: BacktestReport, sharpe: i128) -> Seq<char> {
    first_member("config"@, config_json(r.config))
        + member("trades"@, listed(trades_json(trade_views(r.trades@), r.trades@.len() as int)))
        + member("equity_curve"@, listed(points_json(r.equity_curve@, r.equity_curve@.len() as int)))
        + member(
            "drawdown_curve"@,
            listed(points_json(r.drawdown_curve@, r.drawdown_curve@.len() as int)),
        )
        + member("metrics"@, metrics_json(r.metrics, sharpe))
        + member(
            "score_buckets"@,
            listed(buckets_json(r.score_buckets@, r.score_buckets@.len() as int)),
        )
        + member("regime_stats"@, listed(regimes_json(r.regime_stats@, r.regime_stats@.len() as int)))
        + member(
            "regime_bar_counts"@,
            listed(counts_json(r.regime_bar_counts@, r.regime_bar_counts@.len() as int)),
        )
        + "}"@
}

/// Writes a report as one object. The Sharpe ratio is handed in.
pub fn report_data(report: &BacktestReport, sharpe: i128) -> (s: String)
    ensures
        s@ == report_json(*report, sharpe),
{
    let mut s: String = String::new();
    put_first(&mut s, "config", config_object(&report.config).as_str());
    put(&mut s, "trades", list(trade_objects(&report.trades)).as_str());
    put(&mut s, "equity_curve", list(point_pairs(&report.equity_curve)).as_str());
    put(&mut s, "drawdown_curve", list(point_pairs(&report.drawdown_curve)).as_str());
    put(&mut s, "metrics", metrics_object(&report.metrics, sharpe).as_str());
    put(&mut s, "score_buckets", list(bucket_objects(&report.score_buckets)).as_str());
    put(&mut s, "regime_stats", list(regime_objects(&report.regime_stats)).as_str());
    put(&mut s, "regime_bar_counts", list(count_pairs(&report.regime_bar_counts)).as_str());
    s.append("}");
    s
}

} // verus!
