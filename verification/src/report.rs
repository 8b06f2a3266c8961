//! The report of a backtest as one page of HTML.
use crate::backtest::{curve_ok, trade_views, CurvePoint};
use crate::fixed::{
    abs_of, bounded, div_round, lemma_round_div_exact, lemma_round_div_monotone, max_fixed, max_of,
    min_of, div_bounded, round_div, saturate, LIMIT, ONE,
};
use crate::metrics::{
    buckets_ok, percent_of, records_ok, regimes_ok, BacktestMetrics, BacktestReport, RegimeStats,
    ScoreBucket, Summary,
};
use crate::regime::regime_text;
use crate::report_json::{report_data, report_json};
use crate::telemetry::{TradeRecord, TradeView};
use crate::text::{fixed_string, fixed_text, nat_text, u64_string};
use vstd::prelude::*;

verus! {

/// The head of the page.
pub const PAGE_HEAD: &'static str = r#"<!DOCTYPE html>
<html lang="en">
<head>
<meta charset="UTF-8">
<meta name="viewport" content="width=device-width,initial-scale=1">
<title>Backtest Report</title>
<style>
*{box-sizing:border-box;margin:0;padding:0}
body{font-family:monospace;background:#0d1117;color:#c9d1d9;padding:24px}
h1{font-size:1.4rem;margin-bottom:20px;color:#58a6ff}
h2{font-size:1.1rem;margin:28px 0 12px;color:#79c0ff;border-bottom:1px solid #30363d;padding-bottom:6px}
.metrics-grid{display:grid;grid-template-columns:repeat(auto-fill,minmax(200px,1fr));gap:12px;margin-bottom:8px}
.metric{background:#161b22;border:1px solid #30363d;border-radius:6px;padding:12px}
.metric-label{font-size:0.75rem;color:#8b949e;margin-bottom:4px}
.metric-value{font-size:1.25rem;font-weight:bold}
.pos{color:#3fb950}.neg{color:#f85149}.neu{color:#e3b341}
table{width:100%;border-collapse:collapse;font-size:0.78rem}
th{background:#161b22;color:#8b949e;padding:6px 8px;text-align:left;border-bottom:1px solid #30363d}
td{padding:5px 8px;border-bottom:1px solid #21262d}
tr:hover td{background:#161b22}
.chart-wrap{background:#161b22;border:1px solid #30363d;border-radius:6px;padding:16px;margin-bottom:16px}
svg text{font-family:monospace;font-size:10px;fill:#8b949e}
</style>
</head>
<body>
<h1>Backtest Report</h1>
"#;

/// A number with its sign, also where it is positive.
pub open spec fn signed_text(v: int, decimals: nat) -> Seq<char> {
    if v >= 0 {
        "+"@ + fixed_text(v, decimals)
    } else {
        fixed_text(v, decimals)
    }
}

/// A number with its sign, also where it is positive.
pub fn signed_string(v: i128, decimals: u32) -> (s: String)
    requires
        decimals <= 12,
    ensures
        s@ == signed_text(v as int, decimals as nat),
{
    if v >= 0 {
        let mut s: String = String::from_str("+");
        s.append(fixed_string(v, decimals).as_str());
        s
    } else {
        fixed_string(v, decimals)
    }
}

/// A profit factor; without losses it is infinite.
pub open spec fn pf_text(pf: Option<i128>) -> Seq<char> {
    match pf {
        Some(v) => fixed_text(v as int, 2),
        None => "∞"@,
    }
}

/// A profit factor in words.
pub fn format_pf(pf: Option<i128>) -> (s: String)
    ensures
        s@ == pf_text(pf),
{
    match pf {
        Some(v) => fixed_string(v, 2),
        None => String::from_str("∞"),
    }
}

/// An amount in dollars.
pub open spec fn usdt_text(v: int) -> Seq<char> {
    if v >= 0 {
        "$"@ + fixed_text(v, 2)
    } else {
        "-$"@ + fixed_text(-v, 2)
    }
}

/// An amount in dollars.
pub fn format_usdt(v: i128) -> (s: String)
    requires
        v > i128::MIN,
    ensures
        s@ == usdt_text(v as int),
{
    if v >= 0 {
        let mut s: String = String::from_str("$");
        s.append(fixed_string(v, 2).as_str());
        s
    } else {
        let mut s: String = String::from_str("-$");
        s.append(fixed_string(-v, 2).as_str());
        s
    }
}

/// How a value is coloured.
pub open spec fn good_text(good: bool) -> Seq<char> {
    if good {
        "pos"@
    } else {
        "neg"@
    }
}

fn good_class(good: bool) -> (s: &'static str)
    ensures
        s@ == good_text(good),
{
    if good {
        "pos"
    } else {
        "neg"
    }
}

/// How a value is coloured that may be good, middling or bad.
pub open spec fn grade_text(good: bool, middling: bool) -> Seq<char> {
    if good {
        "pos"@
    } else if middling {
        "neu"@
    } else {
        "neg"@
    }
}

fn grade_class(good: bool, middling: bool) -> (s: &'static str)
    ensures
        s@ == grade_text(good, middling),
{
    if good {
        "pos"
    } else if middling {
        "neu"
    } else {
        "neg"
    }
}

/// One metric of the summary.
pub open spec fn card_text(label: Seq<char>, value: Seq<char>, class: Seq<char>) -> Seq<char> {
    "<div class=\"metric\"><div class=\"metric-label\">"@ + label
        + "</div><div class=\"metric-value "@ + class + "\">"@ + value + "</div></div>"@
}

/// One metric of the summary.
pub fn metric_card(label: &str, value: &str, class: &str) -> (s: String)
    ensures
        s@ == card_text(label@, value@, class@),
{
    let mut s: String = String::from_str("<div class=\"metric\"><div class=\"metric-label\">");
    s.append(label);
    s.append("</div><div class=\"metric-value ");
    s.append(class);
    s.append("\">");
    s.append(value);
    s.append("</div></div>");
    s
}

/// A percentage.
pub open spec fn pct_text(t: Seq<char>) -> Seq<char> {
    t + "%"@
}

fn pct_string(t: String) -> (s: String)
    ensures
        s@ == pct_text(t@),
{
    let mut s: String = t;
    s.append("%");
    s
}

/// An amount in dollars, whatever its sign.
pub open spec fn dollar_text(v: int) -> Seq<char> {
    "$"@ + fixed_text(v, 2)
}

fn dollar_string(v: i128) -> (s: String)
    ensures
        s@ == dollar_text(v as int),
{
    let mut s: String = String::from_str("$");
    s.append(fixed_string(v, 2).as_str());
    s
}

/// Whether a profit factor is at least a bound. An infinite one is.
pub open spec fn pf_at_least(pf: Option<i128>, bound: int) -> bool {
    pf is None || pf->0 >= bound
}

/// The colour of a profit factor.
pub open spec fn pf_class_text(pf: Option<i128>) -> Seq<char> {
    grade_text(pf_at_least(pf, 1_500_000_000_000), pf_at_least(pf, ONE as int))
}

fn pf_class(pf: Option<i128>) -> (s: &'static str)
    ensures
        s@ == pf_class_text(pf),
{
    match pf {
        None => grade_class(true, true),
        Some(v) => grade_class(v >= 1_500_000_000_000, v >= ONE),
    }
}

/// The summary of the metrics.
pub open spec fn summary_text(m: BacktestMetrics, sharpe: i128) -> Seq<char> {
    let return_class = good_text(m.total_return_pct >= 0);
    "<h2>Summary</h2><div class=\"metrics-grid\">"@ + card_text(
        "Total Return"@,
        pct_text(signed_text(m.total_return_pct as int, 2)),
        return_class,
    ) + card_text(
        "Max Drawdown"@,
        pct_text(fixed_text(m.max_drawdown_pct as int, 2)),
        grade_text(m.max_drawdown_pct <= 8 * ONE, m.max_drawdown_pct <= 15 * ONE),
    ) + card_text(
        "Sharpe Ratio"@,
        fixed_text(sharpe as int, 2),
        grade_text(sharpe >= ONE, sharpe >= 0),
    ) + card_text("Profit Factor"@, pf_text(m.profit_factor), pf_class_text(m.profit_factor))
        + card_text("Win Rate"@, pct_text(fixed_text(100 * m.win_rate, 1)), "neu"@) + card_text(
        "Trades"@,
        nat_text(m.trade_count as nat),
        "neu"@,
    ) + card_text("Avg Winner"@, pct_text(signed_text(m.avg_winner_pct as int, 2)), "pos"@)
        + card_text("Avg Loser"@, pct_text(signed_text(m.avg_loser_pct as int, 2)), "neg"@)
        + card_text("Final Equity"@, dollar_text(m.final_equity as int), return_class) + card_text(
        "Total Fees"@,
        dollar_text(m.total_fees_usdt as int),
        "neg"@,
    ) + card_text("Total Slippage"@, dollar_text(m.total_slippage_usdt as int), "neg"@) + card_text(
        "Avg Duration"@,
        nat_text((m.avg_trade_duration_ms / 60_000) as nat) + " min"@,
        "neu"@,
    ) + "</div>"@
}

fn summary_html(m: &BacktestMetrics, sharpe: i128) -> (s: String)
    requires
        0 <= m.win_rate <= ONE,
    ensures
        s@ == summary_text(*m, sharpe),
{
    let return_class: &'static str = good_class(m.total_return_pct >= 0);
    let mut s: String = String::from_str("<h2>Summary</h2><div class=\"metrics-grid\">");
    let v: String = pct_string(signed_string(m.total_return_pct, 2));
    s.append(metric_card("Total Return", v.as_str(), return_class).as_str());
    let v: String = pct_string(fixed_string(m.max_drawdown_pct, 2));
    let class: &'static str = grade_class(
        m.max_drawdown_pct <= 8 * ONE,
        m.max_drawdown_pct <= 15 * ONE,
    );
    s.append(metric_card("Max Drawdown", v.as_str(), class).as_str());
    let class: &'static str = grade_class(sharpe >= ONE, sharpe >= 0);
    s.append(metric_card("Sharpe Ratio", fixed_string(sharpe, 2).as_str(), class).as_str());
    s.append(
        metric_card("Profit Factor", format_pf(m.profit_factor).as_str(), pf_class(m.profit_factor)).as_str(),
    );
    let v: String = pct_string(fixed_string(100 * m.win_rate, 1));
    s.append(metric_card("Win Rate", v.as_str(), "neu").as_str());
    s.append(metric_card("Trades", u64_string(m.trade_count as u64).as_str(), "neu").as_str());
    let v: String = pct_string(signed_string(m.avg_winner_pct, 2));
    s.append(metric_card("Avg Winner", v.as_str(), "pos").as_str());
    let v: String = pct_string(signed_string(m.avg_loser_pct, 2));
    s.append(metric_card("Avg Loser", v.as_str(), "neg").as_str());
    s.append(metric_card("Final Equity", dollar_string(m.final_equity).as_str(), return_class).as_str());
    s.append(metric_card("Total Fees", dollar_string(m.total_fees_usdt).as_str(), "neg").as_str());
    s.append(
        metric_card("Total Slippage", dollar_string(m.total_slippage_usdt).as_str(), "neg").as_str(),
    );
    let mut v: String = u64_string(m.avg_trade_duration_ms / 60_000);
    v.append(" min");
    s.append(metric_card("Avg Duration", v.as_str(), "neu").as_str());
    s.append("</div>");
    s
}

/// The cells of a group of trades: the share of wins, the mean return and the
/// expectancy.
pub open spec fn group_cells(count: nat, m: Summary) -> Seq<char> {
    "</td><td>"@ + nat_text(count) + "</td><td class=\""@ + good_text(2 * m.win_rate >= ONE)
        + "\">"@ + fixed_text(100 * m.win_rate, 1) + "%</td><td class=\""@ + good_text(
        m.avg_return_pct >= 0,
    ) + "\">"@ + signed_text(m.avg_return_pct as int, 2) + "%</td><td class=\""@ + good_text(
        m.expectancy_pct >= 0,
    ) + "\">"@ + signed_text(m.expectancy_pct as int, 2)
}

fn group_html(m: &Summary) -> (s: String)
    requires
        0 <= m.win_rate <= ONE,
    ensures
        s@ == group_cells(m.count as nat, *m),
{
    let mut s: String = String::from_str("</td><td>");
    s.append(u64_string(m.count as u64).as_str());
    s.append("</td><td class=\"");
    s.append(good_class(2 * m.win_rate >= ONE));
    s.append("\">");
    s.append(fixed_string(100 * m.win_rate, 1).as_str());
    s.append("%</td><td class=\"");
    s.append(good_class(m.avg_return_pct >= 0));
    s.append("\">");
    s.append(signed_string(m.avg_return_pct, 2).as_str());
    s.append("%</td><td class=\"");
    s.append(good_class(m.expectancy_pct >= 0));
    s.append("\">");
    s.append(signed_string(m.expectancy_pct, 2).as_str());
    s
}

/// The row of one regime. Its profit factor has the colour of the whole one.
pub open spec fn regime_row_text(r: RegimeStats, whole: Option<i128>) -> Seq<char> {
    "<tr><td>"@ + regime_text(r.regime) + group_cells(r.summary.count as nat, r.summary)
        + "%</td><td class=\""@ + pf_class_text(whole) + "\">"@ + pf_text(r.summary.profit_factor)
        + "</td></tr>"@
}

/// The rows of the first `n` regimes.
pub open spec fn regime_rows_text(rows: Seq<RegimeStats>, whole: Option<i128>, n: int) -> Seq<char>
    decreases n,
{
    if n <= 0 {
        Seq::empty()
    } else {
        regime_rows_text(rows, whole, n - 1) + regime_row_text(rows[n - 1], whole)
    }
}

fn regime_rows(rows: &Vec<RegimeStats>, whole: Option<i128>) -> (s: String)
    requires
        regimes_ok(rows@),
    ensures
        s@ == regime_rows_text(rows@, whole, rows@.len() as int),
{
    let mut s: String = String::new();
    let mut i: usize = 0;
    while i < rows.len()
        invariant
            i <= rows@.len(),
            regimes_ok(rows@),
            s@ == regime_rows_text(rows@, whole, i as int),
        decreases rows@.len() - i,
    {
        let r: &RegimeStats = &rows[i];
        assert(0 <= rows@[i as int].summary.win_rate <= ONE);
        let mut row: String = String::from_str("<tr><td>");
        row.append(r.regime.name());
        row.append(group_html(&r.summary).as_str());
        row.append("%</td><td class=\"");
        row.append(pf_class(whole));
        row.append("\">");
        row.append(format_pf(r.summary.profit_factor).as_str());
        row.append("</td></tr>");
        s.append(row.as_str());
        i += 1;
    }
    s
}

/// The row of one bucket of scores.
pub open spec fn bucket_row_text(b: ScoreBucket) -> Seq<char> {
    "<tr><td>"@ + b.label@ + group_cells(b.summary.count as nat, b.summary) + "%</td><td>"@
        + pf_text(b.summary.profit_factor) + "</td></tr>"@
}

/// The rows of the first `n` buckets: those without trades are left out.
pub open spec fn bucket_rows_text(rows: Seq<ScoreBucket>, n: int) -> Seq<char>
    decreases n,
{
    if n <= 0 {
        Seq::empty()
    } else if rows[n - 1].summary.count == 0 {
        bucket_rows_text(rows, n - 1)
    } else {
        bucket_rows_text(rows, n - 1) + bucket_row_text(rows[n - 1])
    }
}

fn bucket_rows(rows: &Vec<ScoreBucket>) -> (s: String)
    requires
        buckets_ok(rows@),
    ensures
        s@ == bucket_rows_text(rows@, rows@.len() as int),
{
    let mut s: String = String::new();
    let mut i: usize = 0;
    while i < rows.len()
        invariant
            i <= rows@.len(),
            buckets_ok(rows@),
            s@ == bucket_rows_text(rows@, i as int),
        decreases rows@.len() - i,
    {
        let b: &ScoreBucket = &rows[i];
        assert(0 <= rows@[i as int].summary.win_rate <= ONE);
        if b.summary.count > 0 {
            let mut row: String = String::from_str("<tr><td>");
            row.append(b.label);
            row.append(group_html(&b.summary).as_str());
            row.append("%</td><td>");
            row.append(format_pf(b.summary.profit_factor).as_str());
            row.append("</td></tr>");
            s.append(row.as_str());
        }
        i += 1;
    }
    s
}

/// An optional amount in dollars, a hyphen where there is none.
pub open spec fn optional_dollars(v: Option<i128>) -> Seq<char> {
    match v {
        Some(x) => dollar_text(x as int),
        None => "-"@,
    }
}

fn optional_dollar_string(v: Option<i128>) -> (s: String)
    ensures
        s@ == optional_dollars(v),
{
    match v {
        Some(x) => dollar_string(x),
        None => String::from_str("-"),
    }
}

/// The net result of a trade, zero where it is not closed.
pub open spec fn net_of(t: TradeView) -> int {
    match t.net_pnl_usdt {
        Some(n) => n as int,
        None => 0,
    }
}

/// The return of a trade in percent, zero where it was worth nothing.
pub open spec fn ledger_return(t: TradeView) -> int {
    if t.position_value_usdt > 0 {
        percent_of(net_of(t), t)
    } else {
        0
    }
}

/// The minutes of a trade, zero where it is not closed.
pub open spec fn ledger_minutes(t: TradeView) -> nat {
    match t.duration_ms {
        Some(d) => (d / 60_000) as nat,
        None => 0,
    }
}

/// The row of one trade.
pub open spec fn trade_row_text(number: nat, t: TradeView) -> Seq<char> {
    let class = good_text(net_of(t) >= 0);
    "<tr><td>"@ + nat_text(number) + "</td><td>"@ + regime_text(t.regime) + "</td><td>"@
        + t.strategy + "</td><td>"@ + fixed_text(t.score as int, 3) + "</td><td>"@ + fixed_text(
        t.entry_price as int,
        2,
    ) + "</td><td>"@ + (match t.exit_price {
        Some(p) => fixed_text(p as int, 2),
        None => "-"@,
    }) + "</td><td class=\""@ + class + "\">"@ + usdt_text(net_of(t)) + "</td><td class=\""@ + class
        + "\">"@ + signed_text(ledger_return(t), 2) + "%</td><td>"@ + optional_dollars(t.mfe_usdt)
        + "</td><td>"@ + optional_dollars(t.mae_usdt) + "</td><td>"@ + nat_text(ledger_minutes(t))
        + " min</td><td>"@ + (match t.exit_reason {
        Some(r) => r,
        None => "-"@,
    }) + "</td></tr>"@
}

fn trade_row(number: u64, t: &TradeRecord) -> (s: String)
    requires
        t@.ok(),
    ensures
        s@ == trade_row_text(number as nat, t@),
{
    let net: i128 = match t.net_pnl_usdt {
        Some(n) => n,
        None => 0,
    };
    let returned: i128 = if t.position_value_usdt > 0 {
        saturate(100 * div_bounded(net, t.position_value_usdt))
    } else {
        0
    };
    let class: &'static str = good_class(net >= 0);
    let mut s: String = String::from_str("<tr><td>");
    s.append(u64_string(number).as_str());
    s.append("</td><td>");
    s.append(t.regime.name());
    s.append("</td><td>");
    s.append(t.strategy.as_str());
    s.append("</td><td>");
    s.append(fixed_string(t.score, 3).as_str());
    s.append("</td><td>");
    s.append(fixed_string(t.entry_price, 2).as_str());
    s.append("</td><td>");
    match t.exit_price {
        Some(p) => s.append(fixed_string(p, 2).as_str()),
        None => s.append("-"),
    }
    s.append("</td><td class=\"");
    s.append(class);
    s.append("\">");
    s.append(format_usdt(net).as_str());
    s.append("</td><td class=\"");
    s.append(class);
    s.append("\">");
    s.append(signed_string(returned, 2).as_str());
    s.append("%</td><td>");
    s.append(optional_dollar_string(t.mfe_usdt).as_str());
    s.append("</td><td>");
    s.append(optional_dollar_string(t.mae_usdt).as_str());
    s.append("</td><td>");
    let minutes: u64 = match t.duration_ms {
        Some(d) => d / 60_000,
        None => 0,
    };
    s.append(u64_string(minutes).as_str());
    s.append(" min</td><td>");
    match &t.exit_reason {
        Some(r) => s.append(r.as_str()),
        None => s.append("-"),
    }
    s.append("</td></tr>");
    s
}

/// The rows of the last `n` trades, the newest first.
pub open spec fn ledger_text(trades: Seq<TradeView>, n: int) -> Seq<char>
    decreases n,
{
    if n <= 0 {
        Seq::empty()
    } else {
        ledger_text(trades, n - 1) + trade_row_text(n as nat, trades[trades.len() - n])
    }
}

/// The most trades that are listed.
pub const LEDGER_MAX: usize = 200;

fn ledger_rows(trades: &Vec<TradeRecord>) -> (s: String)
    requires
        records_ok(trades@),
    ensures
        s@ == ledger_text(
            trade_views(trades@),
            min_of(trades@.len() as int, LEDGER_MAX as int),
        ),
{
    let ghost views = trade_views(trades@);
    let n: usize = if trades.len() < LEDGER_MAX {
        trades.len()
    } else {
        LEDGER_MAX
    };
    let mut s: String = String::new();
    let mut i: usize = 0;
    while i < n
        invariant
            i <= n <= trades@.len(),
            records_ok(trades@),
            views == trade_views(trades@),
            s@ == ledger_text(views, i as int),
        decreases n - i,
    {
        let at: usize = trades.len() - 1 - i;
        assert(views[at as int] == trades@[at as int]@);
        s.append(trade_row(i as u64 + 1, &trades[at]).as_str());
        i += 1;
    }
    s
}

/// The room to the left of a chart, for the labels.
pub const PAD_LEFT: u32 = 60;

/// The room to the right of a chart.
pub const PAD_RIGHT: u32 = 20;

/// The room above a chart.
pub const PAD_TOP: u32 = 16;

/// The room under a chart.
pub const PAD_BOTTOM: u32 = 28;

/// The size of a chart leaves room between its margins.
pub open spec fn chart_ok(width: int, height: int) -> bool {
    PAD_LEFT + PAD_RIGHT <= width <= 100_000 && PAD_TOP + PAD_BOTTOM <= height <= 100_000
}

/// A chart that has only a word to say.
pub open spec fn empty_chart_text(width: nat, height: nat, word: Seq<char>) -> Seq<char> {
    "<div class=\"chart-wrap\"><svg width=\""@ + nat_text(width) + "\" height=\""@ + nat_text(height)
        + "\"><text x=\"10\" y=\"20\">"@ + word + "</text></svg></div>"@
}

fn empty_chart(width: u32, height: u32, word: &str) -> (s: String)
    ensures
        s@ == empty_chart_text(width as nat, height as nat, word@),
{
    let mut s: String = String::from_str("<div class=\"chart-wrap\"><svg width=\"");
    s.append(u64_string(width as u64).as_str());
    s.append("\" height=\"");
    s.append(u64_string(height as u64).as_str());
    s.append("\"><text x=\"10\" y=\"20\">");
    s.append(word);
    s.append("</text></svg></div>");
    s
}

/// The opening of a chart.
pub open spec fn chart_head_text(width: nat, height: nat) -> Seq<char> {
    "<div class=\"chart-wrap\"><svg width=\""@ + nat_text(width) + "\" height=\""@ + nat_text(height)
        + "\" viewBox=\"0 0 "@ + nat_text(width) + " "@ + nat_text(height) + "\">\n"@
}

fn chart_head(width: u32, height: u32) -> (s: String)
    ensures
        s@ == chart_head_text(width as nat, height as nat),
{
    let mut s: String = String::from_str("<div class=\"chart-wrap\"><svg width=\"");
    s.append(u64_string(width as u64).as_str());
    s.append("\" height=\"");
    s.append(u64_string(height as u64).as_str());
    s.append("\" viewBox=\"0 0 ");
    s.append(u64_string(width as u64).as_str());
    s.append(" ");
    s.append(u64_string(height as u64).as_str());
    s.append("\">\n");
    s
}

/// The height of the `i`-th of the five lines of a chart, counted from the lowest.
pub open spec fn tick_y(height: int, i: int) -> int {
    PAD_TOP * ONE + (4 - i) * (height - PAD_TOP - PAD_BOTTOM) * 250_000_000_000
}

/// One line of a chart with its label.
pub open spec fn tick_text(width: int, height: int, i: int, label: Seq<char>) -> Seq<char> {
    let y = tick_y(height, i);
    "<text x=\"56\" y=\""@ + fixed_text(y + 4 * ONE, 1) + "\" text-anchor=\"end\">"@ + label
        + "</text><line x1=\"60\" y1=\""@ + fixed_text(y, 1) + "\" x2=\""@ + nat_text(
        (width - PAD_RIGHT) as nat,
    ) + "\" y2=\""@ + fixed_text(y, 1) + "\" stroke=\"#30363d\" stroke-width=\"1\"/>"@
}

fn tick(width: u32, height: u32, i: u32, label: &str) -> (s: String)
    requires
        chart_ok(width as int, height as int),
        i <= 4,
    ensures
        s@ == tick_text(width as int, height as int, i as int, label@),
{
    let room: i128 = (height - PAD_TOP - PAD_BOTTOM) as i128;
    let parts: i128 = (4 - i) as i128;
    proof {
        assert(0 <= parts * room <= 400_000) by (nonlinear_arith)
            requires
                0 <= parts <= 4,
                0 <= room <= 100_000,
        ;
    }
    let y: i128 = PAD_TOP as i128 * ONE + parts * room * 250_000_000_000;
    let mut s: String = String::from_str("<text x=\"56\" y=\"");
    s.append(fixed_string(y + 4 * ONE, 1).as_str());
    s.append("\" text-anchor=\"end\">");
    s.append(label);
    s.append("</text><line x1=\"60\" y1=\"");
    s.append(fixed_string(y, 1).as_str());
    s.append("\" x2=\"");
    s.append(u64_string((width - PAD_RIGHT) as u64).as_str());
    s.append("\" y2=\"");
    s.append(fixed_string(y, 1).as_str());
    s.append("\" stroke=\"#30363d\" stroke-width=\"1\"/>");
    s
}

/// The smallest of the first `n` values of a curve.
pub open spec fn least_value(c: Seq<CurvePoint>, n: int) -> int
    decreases n,
{
    if n <= 1 {
        c[0].value as int
    } else {
        min_of(least_value(c, n - 1), c[n - 1].value as int)
    }
}

/// The largest of the first `n` values of a curve.
pub open spec fn greatest_value(c: Seq<CurvePoint>, n: int) -> int
    decreases n,
{
    if n <= 1 {
        c[0].value as int
    } else {
        max_of(greatest_value(c, n - 1), c[n - 1].value as int)
    }
}

/// The extent of a curve: its values, and the times of its first and last points.
#[derive(Clone, Copy, Debug, PartialEq, Eq, Structural)]
pub struct Extent {
    pub low: i128,
    pub high: i128,
    /// From the lowest value to the highest, and never nothing.
    pub rise: i128,
    pub start_ms: u64,
    /// From the first time to the last, and at least one millisecond.
    pub span_ms: u64,
}

/// The extent of a curve.
pub open spec fn extent_of(c: Seq<CurvePoint>) -> Extent {
    let low = least_value(c, c.len() as int);
    let high = greatest_value(c, c.len() as int);
    let last = c[c.len() - 1].time_ms;
    Extent {
        low: low as i128,
        high: high as i128,
        rise: max_of(high - low, 1) as i128,
        start_ms: c[0].time_ms,
        span_ms: max_of(last - c[0].time_ms, 1) as u64,
    }
}

fn measure_curve(c: &Vec<CurvePoint>) -> (e: Extent)
    requires
        c@.len() > 0,
        curve_ok(c@),
    ensures
        e == extent_of(c@),
        bounded(e.low as int),
        bounded(e.high as int),
        1 <= e.rise <= 2 * LIMIT,
        e.span_ms >= 1,
        forall|i: int| 0 <= i < c@.len() ==> 0 <= (#[trigger] c@[i]).value - e.low <= e.rise,
{
    let mut low: i128 = c[0].value;
    let mut high: i128 = c[0].value;
    assert(bounded(c@[0].value as int));
    let mut i: usize = 1;
    while i < c.len()
        invariant
            1 <= i <= c@.len(),
            curve_ok(c@),
            low == least_value(c@, i as int),
            high == greatest_value(c@, i as int),
            bounded(low as int),
            bounded(high as int),
            forall|k: int| 0 <= k < i ==> low <= (#[trigger] c@[k]).value <= high,
        decreases c@.len() - i,
    {
        let v: i128 = c[i].value;
        assert(bounded(c@[i as int].value as int));
        if v < low {
            low = v;
        }
        high = max_fixed(high, v);
        i += 1;
    }
    let first: u64 = c[0].time_ms;
    let last: u64 = c[c.len() - 1].time_ms;
    Extent {
        low,
        high,
        rise: max_fixed(high - low, 1),
        start_ms: first,
        span_ms: if last > first {
            last - first
        } else {
            1
        },
    }
}

/// Where a time stands in a chart, from the left.
pub open spec fn chart_x(time_ms: u64, e: Extent, width: int) -> int {
    PAD_LEFT * ONE + round_div(
        (time_ms - e.start_ms) * (width - PAD_LEFT - PAD_RIGHT) * ONE,
        e.span_ms as int,
    )
}

/// Where a value stands in a chart, from the top.
pub open spec fn chart_y(value: i128, e: Extent, height: int) -> int {
    PAD_TOP * ONE + (ONE - round_div((value - e.low) * ONE, e.rise as int)) * (height - PAD_TOP
        - PAD_BOTTOM)
}

/// A point of a curve in a chart.
pub open spec fn point_text(p: CurvePoint, e: Extent, width: int, height: int) -> Seq<char> {
    fixed_text(chart_x(p.time_ms, e, width), 1) + " "@ + fixed_text(chart_y(p.value, e, height), 1)
}

fn point_string(p: &CurvePoint, e: &Extent, width: u32, height: u32) -> (s: String)
    requires
        chart_ok(width as int, height as int),
        1 <= e.rise <= 2 * LIMIT,
        e.span_ms >= 1,
        0 <= p.value - e.low <= e.rise,
        bounded(e.low as int),
        bounded(p.value as int),
    ensures
        s@ == point_text(*p, *e, width as int, height as int),
{
    let w: i128 = (width - PAD_LEFT - PAD_RIGHT) as i128;
    let h: i128 = (height - PAD_TOP - PAD_BOTTOM) as i128;
    let dt: i128 = p.time_ms as i128 - e.start_ms as i128;
    proof {
        assert(-0x1_0000_0000_0000_0000 * 100_000 <= dt * w <= 0x1_0000_0000_0000_0000 * 100_000)
            by (nonlinear_arith)
            requires
                -0x1_0000_0000_0000_0000 <= dt <= 0x1_0000_0000_0000_0000,
                0 <= w <= 100_000,
        ;
        lemma_round_div_magnitude(dt * w * ONE, e.span_ms as int);
    }
    let x: i128 = PAD_LEFT as i128 * ONE + div_round(dt * w * ONE, e.span_ms as i128);
    let up: i128 = p.value - e.low;
    proof {
        let r = e.rise as int;
        lemma_round_div_monotone(0, up * ONE, r);
        lemma_round_div_exact(0, r);
        lemma_round_div_monotone(up * ONE, ONE * r, r);
        lemma_round_div_exact(ONE as int, r);
    }
    let part: i128 = ONE - div_round(up * ONE, e.rise);
    proof {
        assert(0 <= part * h <= ONE * 100_000) by (nonlinear_arith)
            requires
                0 <= part <= ONE,
                0 <= h <= 100_000,
        ;
    }
    let y: i128 = PAD_TOP as i128 * ONE + part * h;
    let mut s: String = fixed_string(x, 1);
    s.append(" ");
    s.append(fixed_string(y, 1).as_str());
    s
}

/// A quotient is no larger than what was divided.
proof fn lemma_round_div_magnitude(a: int, b: int)
    requires
        b >= 1,
    ensures
        -abs_of(a) - 1 <= round_div(a, b) <= abs_of(a) + 1,
{
    let m = abs_of(a);
    assert(a <= m * b && -m * b <= a) by (nonlinear_arith)
        requires
            b >= 1,
            -m <= a <= m,
            m >= 0,
    ;
    lemma_round_div_monotone(a, m * b, b);
    lemma_round_div_exact(m, b);
    lemma_round_div_monotone(-m * b, a, b);
    lemma_round_div_exact(-m, b);
}

/// The line through the first `n` points of a curve.
pub open spec fn path_text(c: Seq<CurvePoint>, e: Extent, width: int, height: int, n: int) -> Seq<
    char,
>
    decreases n,
{
    if n <= 0 {
        Seq::empty()
    } else if n == 1 {
        "M "@ + point_text(c[0], e, width, height)
    } else {
        path_text(c, e, width, height, n - 1) + (" L "@ + point_text(c[n - 1], e, width, height))
    }
}

/// The value that the `i`-th line of a chart stands for.
pub open spec fn tick_value(e: Extent, i: int) -> int {
    e.low + round_div(e.rise * i, 4)
}

/// The label of a value: without decimals where the curve is high.
pub open spec fn value_label(e: Extent, i: int) -> Seq<char> {
    fixed_text(
        tick_value(e, i),
        if abs_of(e.high as int) > 100 * ONE {
            0
        } else {
            2
        },
    )
}

/// The first `n` lines of the chart of a curve.
pub open spec fn value_ticks_text(e: Extent, width: int, height: int, n: int) -> Seq<char>
    decreases n,
{
    if n <= 0 {
        Seq::empty()
    } else {
        value_ticks_text(e, width, height, n - 1) + tick_text(
            width,
            height,
            n - 1,
            value_label(e, n - 1),
        )
    }
}

/// The chart of a curve.
pub open spec fn curve_text(c: Seq<CurvePoint>, width: int, height: int, stroke: Seq<char>) -> Seq<
    char,
> {
    if c.len() < 2 {
        empty_chart_text(width as nat, height as nat, "No data"@)
    } else {
        let e = extent_of(c);
        chart_head_text(width as nat, height as nat) + value_ticks_text(e, width, height, 5)
            + "\n<path d=\""@ + path_text(c, e, width, height, c.len() as int)
            + "\" fill=\"none\" stroke=\""@ + stroke + "\" stroke-width=\"1.5\"/>\n</svg></div>"@
    }
}

fn value_ticks(e: &Extent, width: u32, height: u32) -> (s: String)
    requires
        chart_ok(width as int, height as int),
        bounded(e.low as int),
        bounded(e.high as int),
        1 <= e.rise <= 2 * LIMIT,
    ensures
        s@ == value_ticks_text(*e, width as int, height as int, 5),
{
    let decimals: u32 = if e.high > 100 * ONE || e.high < -100 * ONE {
        0
    } else {
        2
    };
    let mut s: String = String::new();
    let mut i: u32 = 0;
    while i < 5
        invariant
            i <= 5,
            chart_ok(width as int, height as int),
            bounded(e.low as int),
            bounded(e.high as int),
            1 <= e.rise <= 2 * LIMIT,
            decimals == (if abs_of(e.high as int) > 100 * ONE {
                0int
            } else {
                2
            }),
            s@ == value_ticks_text(*e, width as int, height as int, i as int),
        decreases 5 - i,
    {
        proof {
            assert(0 <= e.rise * i <= 8 * LIMIT) by (nonlinear_arith)
                requires
                    1 <= e.rise <= 2 * LIMIT,
                    0 <= i <= 4,
            ;
            lemma_round_div_magnitude(e.rise * i, 4);
        }
        let v: i128 = e.low + div_round(e.rise * i as i128, 4);
        let label: String = fixed_string(v, decimals);
        s.append(tick(width, height, i, label.as_str()).as_str());
        i += 1;
    }
    s
}

/// Draws a curve.
pub fn render_equity_svg(points: &Vec<CurvePoint>, width: u32, height: u32, stroke: &str) -> (s:
    String)
    requires
        chart_ok(width as int, height as int),
        curve_ok(points@),
    ensures
        s@ == curve_text(points@, width as int, height as int, stroke@),
{
    if points.len() < 2 {
        return empty_chart(width, height, "No data");
    }
    let e: Extent = measure_curve(points);
    assert(0 <= points@[0].value - e.low <= e.rise && bounded(points@[0].value as int));
    let mut path: String = String::from_str("M ");
    path.append(point_string(&points[0], &e, width, height).as_str());
    let mut i: usize = 1;
    while i < points.len()
        invariant
            1 <= i <= points@.len(),
            chart_ok(width as int, height as int),
            curve_ok(points@),
            1 <= e.rise <= 2 * LIMIT,
            e.span_ms >= 1,
            bounded(e.low as int),
            forall|k: int|
                0 <= k < points@.len() ==> 0 <= (#[trigger] points@[k]).value - e.low <= e.rise,
            path@ == path_text(points@, e, width as int, height as int, i as int),
        decreases points@.len() - i,
    {
        assert(bounded(points@[i as int].value as int));
        let mut next: String = String::from_str(" L ");
        next.append(point_string(&points[i], &e, width, height).as_str());
        path.append(next.as_str());
        i += 1;
    }
    let mut s: String = chart_head(width, height);
    s.append(value_ticks(&e, width, height).as_str());
    s.append("\n<path d=\"");
    s.append(path.as_str());
    s.append("\" fill=\"none\" stroke=\"");
    s.append(stroke);
    s.append("\" stroke-width=\"1.5\"/>\n</svg></div>");
    s
}

/// The curve upside down.
pub open spec fn inverted(c: Seq<CurvePoint>) -> Seq<CurvePoint> {
    Seq::new(
        c.len(),
        |i: int| CurvePoint { time_ms: c[i].time_ms, value: (-c[i].value) as i128 },
    )
}

fn invert(c: &Vec<CurvePoint>) -> (v: Vec<CurvePoint>)
    requires
        curve_ok(c@),
    ensures
        v@ == inverted(c@),
        curve_ok(v@),
{
    let mut v: Vec<CurvePoint> = Vec::new();
    let mut i: usize = 0;
    while i < c.len()
        invariant
            i <= c@.len(),
            curve_ok(c@),
            curve_ok(v@),
            v@.len() == i,
            forall|k: int| 0 <= k < i ==> #[trigger] v@[k] == inverted(c@)[k],
        decreases c@.len() - i,
    {
        assert(bounded(c@[i as int].value as int));
        v.push(CurvePoint { time_ms: c[i].time_ms, value: -c[i].value });
        i += 1;
    }
    assert(v@ =~= inverted(c@));
    v
}

/// Whether any bucket has trades.
pub open spec fn any_trades(rows: Seq<ScoreBucket>) -> bool {
    exists|i: int| 0 <= i < rows.len() && (#[trigger] rows[i]).summary.count > 0
}

/// The height of a bucket's bar: its share of wins, in whole steps of the chart.
pub open spec fn bar_height(b: ScoreBucket, height: int) -> int {
    if b.summary.count > 0 {
        b.summary.win_rate * (height - PAD_TOP - PAD_BOTTOM) / (ONE as int)
    } else {
        0
    }
}

/// The words at a bucket's bar.
pub open spec fn bar_words_text(b: ScoreBucket, x: int, bar: int, height: int) -> Seq<char> {
    let foot = height - PAD_BOTTOM;
    "<text x=\""@ + nat_text(x as nat) + "\" y=\""@ + nat_text((foot + 14) as nat)
        + "\" text-anchor=\"middle\">"@ + b.label@ + "</text><text x=\""@ + nat_text(x as nat)
        + "\" y=\""@ + nat_text(
        (if bar > 18 {
            foot - 4
        } else {
            foot - bar - 2
        }) as nat,
    ) + "\" text-anchor=\"middle\" fill=\"#c9d1d9\">"@ + fixed_text(100 * b.summary.win_rate, 0)
        + "%</text>"@
}

/// The bar of the `i`-th bucket, with its words where it has trades.
pub open spec fn bar_text(b: ScoreBucket, i: int, bar_width: int, height: int) -> Seq<char> {
    let bar = bar_height(b, height);
    let x = PAD_LEFT + i * bar_width + 2;
    let rect = "<rect x=\""@ + nat_text(x as nat) + "\" y=\""@ + nat_text(
        (height - PAD_BOTTOM - bar) as nat,
    ) + "\" width=\""@ + nat_text(max_of(bar_width - 4, 0) as nat) + "\" height=\""@ + nat_text(
        bar as nat,
    ) + "\" fill=\""@ + (if 2 * b.summary.win_rate >= ONE {
        "#3fb950"@
    } else {
        "#f85149"@
    }) + "\" opacity=\"0.8\"/>"@;
    if b.summary.count > 0 {
        rect + bar_words_text(b, x + bar_width / 2, bar, height)
    } else {
        rect
    }
}

/// The bars of the first `n` buckets.
pub open spec fn bars_text(rows: Seq<ScoreBucket>, bar_width: int, height: int, n: int) -> Seq<char>
    decreases n,
{
    if n <= 0 {
        Seq::empty()
    } else {
        bars_text(rows, bar_width, height, n - 1) + bar_text(rows[n - 1], n - 1, bar_width, height)
    }
}

/// The first `n` lines of the chart of shares.
pub open spec fn share_ticks_text(width: int, height: int, n: int) -> Seq<char>
    decreases n,
{
    if n <= 0 {
        Seq::empty()
    } else {
        share_ticks_text(width, height, n - 1) + tick_text(
            width,
            height,
            n - 1,
            pct_text(nat_text((25 * (n - 1)) as nat)),
        )
    }
}

/// The chart of the buckets of scores.
pub open spec fn buckets_text(rows: Seq<ScoreBucket>, width: int, height: int) -> Seq<char> {
    if !any_trades(rows) {
        empty_chart_text(width as nat, height as nat, "No trades"@)
    } else {
        chart_head_text(width as nat, height as nat) + share_ticks_text(width, height, 5)
            + bars_text(
            rows,
            (width - PAD_LEFT - PAD_RIGHT) / (rows.len() as int),
            height,
            rows.len() as int,
        ) + "\n</svg></div>"@
    }
}

fn has_trades(rows: &Vec<ScoreBucket>) -> (r: bool)
    ensures
        r == any_trades(rows@),
{
    let mut i: usize = 0;
    while i < rows.len()
        invariant
            i <= rows@.len(),
            forall|k: int| 0 <= k < i ==> (#[trigger] rows@[k]).summary.count == 0,
        decreases rows@.len() - i,
    {
        if rows[i].summary.count > 0 {
            assert(rows@[i as int].summary.count > 0);
            return true;
        }
        i += 1;
    }
    false
}

fn share_ticks(width: u32, height: u32) -> (s: String)
    requires
        chart_ok(width as int, height as int),
    ensures
        s@ == share_ticks_text(width as int, height as int, 5),
{
    let mut s: String = String::new();
    let mut i: u32 = 0;
    while i < 5
        invariant
            i <= 5,
            chart_ok(width as int, height as int),
            s@ == share_ticks_text(width as int, height as int, i as int),
        decreases 5 - i,
    {
        let label: String = pct_string(u64_string(25 * i as u64));
        s.append(tick(width, height, i, label.as_str()).as_str());
        i += 1;
    }
    s
}

fn bar_words(b: &ScoreBucket, x: u64, bar: u64, height: u64) -> (s: String)
    requires
        0 <= b.summary.win_rate <= ONE,
        PAD_TOP + PAD_BOTTOM <= height <= 100_000,
        bar <= height - PAD_TOP - PAD_BOTTOM,
    ensures
        s@ == bar_words_text(*b, x as int, bar as int, height as int),
{
    let foot: u64 = height - PAD_BOTTOM as u64;
    let mut s: String = String::from_str("<text x=\"");
    s.append(u64_string(x).as_str());
    s.append("\" y=\"");
    s.append(u64_string(foot + 14).as_str());
    s.append("\" text-anchor=\"middle\">");
    s.append(b.label);
    s.append("</text><text x=\"");
    s.append(u64_string(x).as_str());
    s.append("\" y=\"");
    let y: u64 = if bar > 18 {
        foot - 4
    } else {
        foot - bar - 2
    };
    s.append(u64_string(y).as_str());
    s.append("\" text-anchor=\"middle\" fill=\"#c9d1d9\">");
    s.append(fixed_string(100 * b.summary.win_rate, 0).as_str());
    s.append("%</text>");
    s
}

fn bar_string(b: &ScoreBucket, i: u64, bar_width: u64, height: u64) -> (s: String)
    requires
        0 <= b.summary.win_rate <= ONE,
        PAD_TOP + PAD_BOTTOM <= height <= 100_000,
        bar_width <= 100_000,
        i * bar_width <= 100_000,
    ensures
        s@ == bar_text(*b, i as int, bar_width as int, height as int),
{
    let room: i128 = height as i128 - PAD_TOP as i128 - PAD_BOTTOM as i128;
    proof {
        let r = b.summary.win_rate as int;
        assert(0 <= r * room <= ONE * room) by (nonlinear_arith)
            requires
                0 <= r <= ONE,
                0 <= room,
        ;
    }
    let bar: u64 = if b.summary.count > 0 {
        (b.summary.win_rate * room / ONE) as u64
    } else {
        0
    };
    let x: u64 = PAD_LEFT as u64 + i * bar_width + 2;
    let mut s: String = String::from_str("<rect x=\"");
    s.append(u64_string(x).as_str());
    s.append("\" y=\"");
    s.append(u64_string(height - PAD_BOTTOM as u64 - bar).as_str());
    s.append("\" width=\"");
    let inner: u64 = if bar_width > 4 {
        bar_width - 4
    } else {
        0
    };
    s.append(u64_string(inner).as_str());
    s.append("\" height=\"");
    s.append(u64_string(bar).as_str());
    s.append("\" fill=\"");
    if 2 * b.summary.win_rate >= ONE {
        s.append("#3fb950");
    } else {
        s.append("#f85149");
    }
    s.append("\" opacity=\"0.8\"/>");
    if b.summary.count > 0 {
        s.append(bar_words(b, x + bar_width / 2, bar, height).as_str());
    }
    s
}

/// Draws the share of wins of each bucket of scores.
pub fn render_score_buckets_svg(buckets: &Vec<ScoreBucket>, width: u32, height: u32) -> (s: String)
    requires
        chart_ok(width as int, height as int),
        buckets_ok(buckets@),
    ensures
        s@ == buckets_text(buckets@, width as int, height as int),
{
    if !has_trades(buckets) {
        return empty_chart(width, height, "No trades");
    }
    let n: u64 = buckets.len() as u64;
    let room: u64 = (width - PAD_LEFT - PAD_RIGHT) as u64;
    let bar_width: u64 = room / n;
    let mut bars: String = String::new();
    let mut i: usize = 0;
    while i < buckets.len()
        invariant
            i <= buckets@.len(),
            n == buckets@.len(),
            n > 0,
            room <= 100_000,
            bar_width == room / n,
            chart_ok(width as int, height as int),
            buckets_ok(buckets@),
            bars@ == bars_text(buckets@, bar_width as int, height as int, i as int),
        decreases buckets@.len() - i,
    {
        assert(0 <= buckets@[i as int].summary.win_rate <= ONE);
        proof {
            assert(i * bar_width <= room && bar_width <= room) by (nonlinear_arith)
                requires
                    0 <= i < n,
                    bar_width == room / n,
                    n > 0,
                    room >= 0,
            ;
        }
        bars.append(bar_string(&buckets[i], i as u64, bar_width, height as u64).as_str());
        i += 1;
    }
    let mut s: String = chart_head(width, height);
    s.append(share_ticks(width, height).as_str());
    s.append(bars.as_str());
    s.append("\n</svg></div>");
    s
}

/// The head of a table of groups of trades.
pub open spec fn table_head_text(first: Seq<char>) -> Seq<char> {
    "<table><tr><th>"@ + first
        + "</th><th>Trades</th><th>Win Rate</th><th>Avg Return</th><th>Expectancy</th><th>Profit Factor</th></tr>"@
}

fn table_head(first: &str) -> (s: String)
    ensures
        s@ == table_head_text(first@),
{
    let mut s: String = String::from_str("<table><tr><th>");
    s.append(first);
    s.append(
        "</th><th>Trades</th><th>Win Rate</th><th>Avg Return</th><th>Expectancy</th><th>Profit Factor</th></tr>",
    );
    s
}

/// The head of the list of trades.
pub const LEDGER_HEAD: &'static str = r#"<h2>Trade Ledger (last 200)</h2><table><tr><th>#</th><th>Regime</th><th>Strategy</th><th>Score</th>
<th>Entry</th><th>Exit</th><th>Net PnL</th><th>Return</th><th>MFE</th><th>MAE</th><th>Duration</th><th>Exit Reason</th></tr>"#;

/// What stands before the data of the report.
pub const DATA_HEAD: &'static str = r#"<script type="application/json" id="report-data">"#;

/// The page of a report: the figures, the charts and the tables, and all the data as
/// one block of JSON.
pub open spec fn page_text(r: BacktestReport, sharpe: i128) -> Seq<char> {
    PAGE_HEAD@ + summary_text(r.metrics, sharpe) + "<h2>Equity Curve</h2>"@ + curve_text(
        r.equity_curve@,
        780,
        200,
        "#58a6ff"@,
    ) + "<h2>Drawdown</h2>"@ + curve_text(inverted(r.drawdown_curve@), 780, 140, "#f85149"@)
        + "<h2>Score Bucket Calibration</h2>"@ + buckets_text(r.score_buckets@, 780, 200)
        + "<h2>Regime Performance</h2>"@ + table_head_text("Regime"@) + regime_rows_text(
        r.regime_stats@,
        r.metrics.profit_factor,
        r.regime_stats@.len() as int,
    ) + "</table><h2>Score Bucket Details</h2>"@ + table_head_text("Score Range"@)
        + bucket_rows_text(r.score_buckets@, r.score_buckets@.len() as int) + "</table>"@
        + LEDGER_HEAD@ + ledger_text(
        trade_views(r.trades@),
        min_of(r.trades@.len() as int, LEDGER_MAX as int),
    ) + "</table>\n"@ + DATA_HEAD@ + report_json(r, sharpe) + "</script>\n</body></html>"@
}

/// Writes a report as one page that needs nothing else, and that holds all the data as
/// one block of JSON. The Sharpe ratio is handed
/// in.
pub fn generate_html(report: &BacktestReport, sharpe: i128) -> (html: String)
    requires
        report.ok(),
    ensures
        html@ == page_text(*report, sharpe),
{
    let mut html: String = String::from_str(PAGE_HEAD);
    html.append(summary_html(&report.metrics, sharpe).as_str());
    html.append("<h2>Equity Curve</h2>");
    html.append(render_equity_svg(&report.equity_curve, 780, 200, "#58a6ff").as_str());
    html.append("<h2>Drawdown</h2>");
    let under: Vec<CurvePoint> = invert(&report.drawdown_curve);
    html.append(render_equity_svg(&under, 780, 140, "#f85149").as_str());
    html.append("<h2>Score Bucket Calibration</h2>");
    html.append(render_score_buckets_svg(&report.score_buckets, 780, 200).as_str());
    html.append("<h2>Regime Performance</h2>");
    html.append(table_head("Regime").as_str());
    html.append(regime_rows(&report.regime_stats, report.metrics.profit_factor).as_str());
    html.append("</table><h2>Score Bucket Details</h2>");
    html.append(table_head("Score Range").as_str());
    html.append(bucket_rows(&report.score_buckets).as_str());
    html.append("</table>");
    html.append(LEDGER_HEAD);
    html.append(ledger_rows(&report.trades).as_str());
    html.append("</table>\n");
    html.append(DATA_HEAD);
    html.append(report_data(report, sharpe).as_str());
    html.append("</script>\n</body></html>");
    html
}

} // verus!
