//! The command line: what is asked for, and what is told.
use crate::config::DEFAULT_BASE_URL;
use crate::fixed::{bounded, div_round, round_div, ONE};
use crate::history::days_ok;
use crate::metrics::{BacktestMetrics, RegimeBars};
use crate::numeral::{integer_value, parse_integer, parse_whole, whole_value};
use crate::regime::regime_text;
use crate::report::{signed_string, signed_text};
use crate::text::{
    begins_with, chars_of, fixed_string, fixed_text, int_string, int_text, left_string, left_text,
    nat_text, right_string, right_text, same_text, starts_with_text, string_of, u64_string,
};
use vstd::prelude::*;

verus! {

/// Whether a word stands among the arguments.
pub fn has_flag(args: &Vec<String>, flag: &str) -> (r: bool)
    ensures
        r == exists|i: int| 0 <= i < args@.len() && (#[trigger] args@[i])@ == flag@,
{
    let mut i: usize = 0;
    while i < args.len()
        invariant
            i <= args@.len(),
            forall|k: int| 0 <= k < i ==> (#[trigger] args@[k])@ != flag@,
        decreases args@.len() - i,
    {
        if same_text(args[i].as_str(), flag) {
            assert(args@[i as int]@ == flag@);
            return true;
        }
        i += 1;
    }
    false
}

/// What follows the prefix in the first argument, from the `i`-th on, that begins
/// with it.
pub open spec fn first_with(args: Seq<String>, prefix: Seq<char>, i: int) -> Option<Seq<char>>
    decreases args.len() - i,
{
    if i < 0 || i >= args.len() {
        None
    } else if begins_with(args[i]@, prefix) {
        Some(args[i]@.skip(prefix.len() as int))
    } else {
        first_with(args, prefix, i + 1)
    }
}

/// The value of an option, which is written behind its name and an equals sign.
pub open spec fn option_of(args: Seq<String>, key: Seq<char>) -> Option<Seq<char>> {
    first_with(args, key + "="@, 0)
}

/// The text of an option.
pub open spec fn view_of(s: Option<String>) -> Option<Seq<char>> {
    match s {
        Some(t) => Some(t@),
        None => None,
    }
}

/// The value of an option.
pub fn arg_value(args: &Vec<String>, key: &str) -> (r: Option<String>)
    ensures
        view_of(r) == option_of(args@, key@),
{
    let mut prefix: String = String::from_str(key);
    prefix.append("=");
    let size: usize = chars_of(prefix.as_str()).len();
    let mut i: usize = 0;
    while i < args.len()
        invariant
            i <= args@.len(),
            prefix@ == key@ + "="@,
            size == prefix@.len(),
            first_with(args@, prefix@, 0) == first_with(args@, prefix@, i as int),
        decreases args@.len() - i,
    {
        let a: &str = args[i].as_str();
        if starts_with_text(a, prefix.as_str()) {
            let v: Vec<char> = chars_of(a);
            let rest: String = string_of(&v, size, v.len());
            assert(rest@ =~= a@.skip(size as int));
            return Some(rest);
        }
        i += 1;
    }
    None
}

/// The value of an option, or the usual one.
pub open spec fn option_or(args: Seq<String>, key: Seq<char>, usual: Seq<char>) -> Seq<char> {
    match option_of(args, key) {
        Some(t) => t,
        None => usual,
    }
}

fn value_or(args: &Vec<String>, key: &str, usual: &str) -> (s: String)
    ensures
        s@ == option_or(args@, key@, usual@),
{
    match arg_value(args, key) {
        Some(t) => t,
        None => String::from_str(usual),
    }
}

/// What a backtest is asked for. The fractions are still in words.
#[derive(Debug)]
pub struct BacktestArgs {
    pub symbol: String,
    pub data_dir: String,
    pub start_frac: Option<String>,
    pub end_frac: Option<String>,
    pub walk_forward: Option<String>,
    pub test_fraction: Option<String>,
    pub out: String,
    pub diagnose: bool,
}

/// Reads what a backtest is asked for.
pub fn read_backtest_args(args: &Vec<String>) -> (r: BacktestArgs)
    ensures
        r.symbol@ == option_or(args@, "--symbol"@, "BTCUSDT"@),
        r.data_dir@ == option_or(args@, "--data-dir"@, "data"@),
        view_of(r.start_frac) == option_of(args@, "--start-frac"@),
        view_of(r.end_frac) == option_of(args@, "--end-frac"@),
        view_of(r.walk_forward) == option_of(args@, "--walk-forward"@),
        view_of(r.test_fraction) == option_of(args@, "--test-fraction"@),
        r.out@ == option_or(args@, "--out"@, "backtest_report.html"@),
        r.diagnose == exists|i: int| 0 <= i < args@.len() && (#[trigger] args@[i])@ == "--diagnose"@,
{
    BacktestArgs {
        symbol: value_or(args, "--symbol", "BTCUSDT"),
        data_dir: value_or(args, "--data-dir", "data"),
        start_frac: arg_value(args, "--start-frac"),
        end_frac: arg_value(args, "--end-frac"),
        walk_forward: arg_value(args, "--walk-forward"),
        test_fraction: arg_value(args, "--test-fraction"),
        out: value_or(args, "--out", "backtest_report.html"),
        diagnose: has_flag(args, "--diagnose"),
    }
}

/// The number of windows; none where the text is no such number.
pub fn read_windows(text: &str) -> (r: Option<usize>)
    ensures
        r == (match whole_value(text@, usize::MAX as int) {
            Some(n) => Some(n as usize),
            None => None,
        }),
{
    match parse_whole(text, usize::MAX as u64) {
        Some(n) => Some(n as usize),
        None => None,
    }
}

/// The error where the number of windows is none.
pub fn windows_error(text: &str) -> (s: String)
    ensures
        s@ == "--walk-forward expects an integer window count, got '"@ + text@ + "'"@,
{
    let mut s: String = String::from_str("--walk-forward expects an integer window count, got '");
    s.append(text);
    s.append("'");
    s
}

/// What a download of the history is asked for.
#[derive(Debug)]
pub struct FetchArgs {
    pub symbol: String,
    pub days: i64,
    pub out_dir: String,
    pub base_url: String,
}

/// The days that are asked for, ninety where none or no number is given.
pub open spec fn asked_days(args: Seq<String>) -> i64 {
    match option_of(args, "--days"@) {
        Some(t) => match integer_value(t) {
            Some(n) => n,
            None => 90,
        },
        None => 90,
    }
}

/// Reads what a download of the history is asked for. Too few or too many days are
/// handed back as the error.
pub fn read_fetch_args(args: &Vec<String>) -> (r: Result<FetchArgs, i64>)
    ensures
        match r {
            Ok(f) => {
                &&& 1 <= asked_days(args@) <= 720
                &&& f.days == asked_days(args@)
                &&& f.symbol@ == option_or(args@, "--symbol"@, "BTCUSDT"@)
                &&& f.out_dir@ == option_or(args@, "--out-dir"@, "backtest_data"@)
                &&& f.base_url@ == option_or(args@, "--base-url"@, DEFAULT_BASE_URL@)
            },
            Err(d) => d == asked_days(args@) && !(1 <= d <= 720),
        },
{
    let days: i64 = match arg_value(args, "--days") {
        Some(t) => match parse_integer(t.as_str()) {
            Some(n) => n,
            None => 90,
        },
        None => 90,
    };
    if !days_ok(days) {
        return Err(days);
    }
    Ok(
        FetchArgs {
            symbol: value_or(args, "--symbol", "BTCUSDT"),
            days,
            out_dir: value_or(args, "--out-dir", "backtest_data"),
            base_url: value_or(args, "--base-url", DEFAULT_BASE_URL),
        },
    )
}

/// The error where the days are too few or too many.
pub fn days_error(days: i64) -> (s: String)
    ensures
        s@ == "--days must be between 1 and 720, got "@ + int_text(days as int),
{
    let mut s: String = String::from_str("--days must be between 1 and 720, got ");
    s.append(int_string(days as i128).as_str());
    s
}

/// The name of a part of the data; none where all of it is meant.
pub open spec fn range_text(start: Option<i128>, end: Option<i128>) -> Option<Seq<char>> {
    match (start, end) {
        (Some(s), Some(e)) => Some(fixed_text(s as int, 2) + "-"@ + fixed_text(e as int, 2)),
        (Some(s), None) => Some(fixed_text(s as int, 2) + "-1.00"@),
        (None, Some(e)) => Some("0.00-"@ + fixed_text(e as int, 2)),
        (None, None) => None,
    }
}

/// Names a part of the data.
pub fn range_label(start: Option<i128>, end: Option<i128>) -> (r: Option<String>)
    ensures
        view_of(r) == range_text(start, end),
{
    match start {
        Some(v) => {
            let mut s: String = fixed_string(v, 2);
            match end {
                Some(e) => {
                    s.append("-");
                    s.append(fixed_string(e, 2).as_str());
                },
                None => s.append("-1.00"),
            }
            Some(s)
        },
        None => match end {
            Some(e) => {
                let mut s: String = String::from_str("0.00-");
                s.append(fixed_string(e, 2).as_str());
                Some(s)
            },
            None => None,
        },
    }
}

/// A profit factor; without losses it is infinite.
pub open spec fn plain_pf_text(pf: Option<i128>) -> Seq<char> {
    match pf {
        Some(v) => fixed_text(v as int, 2),
        None => "inf"@,
    }
}

fn plain_pf(pf: Option<i128>) -> (s: String)
    ensures
        s@ == plain_pf_text(pf),
{
    match pf {
        Some(v) => fixed_string(v, 2),
        None => String::from_str("inf"),
    }
}

/// The name of the file for the report of a window.
pub fn report_name(label: &str) -> (s: String)
    ensures
        s@ == "backtest_"@ + label@ + ".html"@,
{
    let mut s: String = String::from_str("backtest_");
    s.append(label);
    s.append(".html");
    s
}

/// The head of a validation over several windows.
pub fn walk_intro(symbol: &str, windows: usize, test_fraction: i128) -> (s: String)
    requires
        bounded(test_fraction as int),
    ensures
        s@ == "Walk-forward validation: "@ + symbol@ + ", "@ + nat_text(windows as nat)
            + " windows, "@ + fixed_text(100 * test_fraction, 0)
            + "% out-of-sample per window\n"@,
{
    let mut s: String = String::from_str("Walk-forward validation: ");
    s.append(symbol);
    s.append(", ");
    s.append(u64_string(windows as u64).as_str());
    s.append(" windows, ");
    s.append(fixed_string(100 * test_fraction, 0).as_str());
    s.append("% out-of-sample per window\n");
    s
}

/// The head of the table of windows.
pub const WALK_HEAD: &'static str =
    "window                            trades  win_rate   return_%   sharpe       pf   max_dd_%";

/// The line of one window.
pub open spec fn walk_text(label: Seq<char>, m: BacktestMetrics, sharpe: i128) -> Seq<char> {
    left_text(label, 32) + " "@ + right_text(nat_text(m.trade_count as nat), 7) + " "@ + right_text(
        fixed_text(100 * m.win_rate, 1),
        8,
    ) + "% "@ + right_text(fixed_text(m.total_return_pct as int, 2), 9) + "% "@ + right_text(
        fixed_text(sharpe as int, 2),
        8,
    ) + " "@ + right_text(plain_pf_text(m.profit_factor), 8) + " "@ + right_text(
        fixed_text(m.max_drawdown_pct as int, 2),
        9,
    ) + "%"@
}

/// The line of one window.
pub fn walk_line(label: &str, m: &BacktestMetrics, sharpe: i128) -> (s: String)
    requires
        0 <= m.win_rate <= ONE,
    ensures
        s@ == walk_text(label@, *m, sharpe),
{
    let mut s: String = left_string(label, 32);
    s.append(" ");
    s.append(right_string(u64_string(m.trade_count as u64).as_str(), 7).as_str());
    s.append(" ");
    s.append(right_string(fixed_string(100 * m.win_rate, 1).as_str(), 8).as_str());
    s.append("% ");
    s.append(right_string(fixed_string(m.total_return_pct, 2).as_str(), 9).as_str());
    s.append("% ");
    s.append(right_string(fixed_string(sharpe, 2).as_str(), 8).as_str());
    s.append(" ");
    s.append(right_string(plain_pf(m.profit_factor).as_str(), 8).as_str());
    s.append(" ");
    s.append(right_string(fixed_string(m.max_drawdown_pct, 2).as_str(), 9).as_str());
    s.append("%");
    s
}

/// The figures of a backtest in words.
pub open spec fn told_text(symbol: Seq<char>, m: BacktestMetrics, sharpe: i128) -> Seq<char> {
    "Backtest: "@ + symbol + "\n  Trades:          "@ + nat_text(m.trade_count as nat)
        + "\n  Win rate:        "@ + fixed_text(100 * m.win_rate, 1) + "%\n  Total return:    "@
        + signed_text(m.total_return_pct as int, 2) + "%\n  Final equity:    $"@ + fixed_text(
        m.final_equity as int,
        2,
    ) + "\n  Max drawdown:    "@ + fixed_text(m.max_drawdown_pct as int, 2)
        + "%\n  Sharpe ratio:    "@ + fixed_text(sharpe as int, 2) + "\n  Profit factor:   "@
        + plain_pf_text(m.profit_factor) + "\n  Avg winner:      "@ + signed_text(
        m.avg_winner_pct as int,
        2,
    ) + "%\n  Avg loser:       "@ + signed_text(m.avg_loser_pct as int, 2)
        + "%\n  Total fees:      $"@ + fixed_text(m.total_fees_usdt as int, 2)
        + "\n  Total slippage:  $"@ + fixed_text(m.total_slippage_usdt as int, 2)
}

/// The figures of a backtest in words.
pub fn tell_metrics(symbol: &str, m: &BacktestMetrics, sharpe: i128) -> (s: String)
    requires
        0 <= m.win_rate <= ONE,
    ensures
        s@ == told_text(symbol@, *m, sharpe),
{
    let mut s: String = String::from_str("Backtest: ");
    s.append(symbol);
    s.append("\n  Trades:          ");
    s.append(u64_string(m.trade_count as u64).as_str());
    s.append("\n  Win rate:        ");
    s.append(fixed_string(100 * m.win_rate, 1).as_str());
    s.append("%\n  Total return:    ");
    s.append(signed_string(m.total_return_pct, 2).as_str());
    s.append("%\n  Final equity:    $");
    s.append(fixed_string(m.final_equity, 2).as_str());
    s.append("\n  Max drawdown:    ");
    s.append(fixed_string(m.max_drawdown_pct, 2).as_str());
    s.append("%\n  Sharpe ratio:    ");
    s.append(fixed_string(sharpe, 2).as_str());
    s.append("\n  Profit factor:   ");
    s.append(plain_pf(m.profit_factor).as_str());
    s.append("\n  Avg winner:      ");
    s.append(signed_string(m.avg_winner_pct, 2).as_str());
    s.append("%\n  Avg loser:       ");
    s.append(signed_string(m.avg_loser_pct, 2).as_str());
    s.append("%\n  Total fees:      $");
    s.append(fixed_string(m.total_fees_usdt, 2).as_str());
    s.append("\n  Total slippage:  $");
    s.append(fixed_string(m.total_slippage_usdt, 2).as_str());
    s
}

/// The fewest trades that say anything.
pub const SAMPLE_MIN: usize = 30;

/// The warning where the trades are too few to say anything.
pub open spec fn warning_text(trades: usize, data_dir: Seq<char>) -> Option<Seq<char>> {
    let head = "\nWARNING: only "@ + nat_text(trades as nat) + " trade(s) in this sample"@;
    if trades >= SAMPLE_MIN {
        None
    } else if data_dir == "data"@ {
        Some(
            head + ". "@ + data_dir
                + "/ is the live pipeline's own cache — it holds at most ~200 recent candles per timeframe (~16 hours of 5m data), which is far too little to draw statistical conclusions. Run `--fetch-history` to build a real historical dataset, then re-run with `--data-dir=backtest_data`."@,
        )
    } else {
        Some(
            head + " from "@ + data_dir
                + "/. That's too few to draw statistical conclusions (win rate / Sharpe / profit factor on <30 trades are noise-dominated). Fetch a longer history window (`--fetch-history --days=N` with a larger N) before trusting these numbers for a go-live decision."@,
        )
    }
}

/// Warns where the trades are too few to say anything.
pub fn sample_warning(trades: usize, data_dir: &str) -> (r: Option<String>)
    ensures
        view_of(r) == warning_text(trades, data_dir@),
{
    if trades >= SAMPLE_MIN {
        return None;
    }
    let mut s: String = String::from_str("\nWARNING: only ");
    s.append(u64_string(trades as u64).as_str());
    s.append(" trade(s) in this sample");
    if same_text(data_dir, "data") {
        s.append(". ");
        s.append(data_dir);
        s.append(
            "/ is the live pipeline's own cache — it holds at most ~200 recent candles per timeframe (~16 hours of 5m data), which is far too little to draw statistical conclusions. Run `--fetch-history` to build a real historical dataset, then re-run with `--data-dir=backtest_data`.",
        );
    } else {
        s.append(" from ");
        s.append(data_dir);
        s.append(
            "/. That's too few to draw statistical conclusions (win rate / Sharpe / profit factor on <30 trades are noise-dominated). Fetch a longer history window (`--fetch-history --days=N` with a larger N) before trusting these numbers for a go-live decision.",
        );
    }
    Some(s)
}

/// The bars of the first `n` regimes.
pub open spec fn bars_total(rows: Seq<RegimeBars>, n: int) -> int
    decreases n,
{
    if n <= 0 {
        0
    } else {
        bars_total(rows, n - 1) + rows[n - 1].bars
    }
}

/// A share in percent, nothing of nothing.
pub open spec fn share_pct(part: int, whole: int) -> int {
    if whole == 0 {
        0
    } else {
        round_div(100 * part * ONE, whole)
    }
}

/// The line of one regime.
pub open spec fn tally_line_text(row: RegimeBars, total: int) -> Seq<char> {
    "\n"@ + left_text(regime_text(row.regime), 12) + " "@ + right_text(nat_text(row.bars as nat), 8)
        + " "@ + right_text(fixed_text(share_pct(row.bars as int, total), 1), 7) + "%"@
}

/// The lines of the first `n` regimes.
pub open spec fn tally_lines_text(rows: Seq<RegimeBars>, total: int, n: int) -> Seq<char>
    decreases n,
{
    if n <= 0 {
        Seq::empty()
    } else {
        tally_lines_text(rows, total, n - 1) + tally_line_text(rows[n - 1], total)
    }
}

/// The head of the table of regimes.
pub const TALLY_HEAD: &'static str =
    "\n=== Bar-level regime tally (all simulated 5m bars, not just ones with trades) ===\nregime           bars      pct";

/// The table of the bars of each regime.
pub fn tell_tally(rows: &Vec<RegimeBars>) -> (s: String)
    requires
        rows@.len() <= 4,
    ensures
        s@ == TALLY_HEAD@ + tally_lines_text(
            rows@,
            bars_total(rows@, rows@.len() as int),
            rows@.len() as int,
        ),
{
    let mut total: u128 = 0;
    let mut i: usize = 0;
    while i < rows.len()
        invariant
            i <= rows@.len() <= 4,
            total == bars_total(rows@, i as int),
            total <= i * 0xffff_ffff_ffff_ffff,
        decreases rows@.len() - i,
    {
        total = total + rows[i].bars as u128;
        i += 1;
    }
    let mut lines: String = String::new();
    let mut i: usize = 0;
    while i < rows.len()
        invariant
            i <= rows@.len() <= 4,
            total == bars_total(rows@, rows@.len() as int),
            total <= 4 * 0xffff_ffff_ffff_ffff,
            lines@ == tally_lines_text(rows@, total as int, i as int),
        decreases rows@.len() - i,
    {
        let bars: usize = rows[i].bars;
        let pct: i128 = if total == 0 {
            0
        } else {
            div_round(100 * bars as i128 * ONE, total as i128)
        };
        let mut line: String = String::from_str("\n");
        line.append(left_string(rows[i].regime.name(), 12).as_str());
        line.append(" ");
        line.append(right_string(u64_string(bars as u64).as_str(), 8).as_str());
        line.append(" ");
        line.append(right_string(fixed_string(pct, 1).as_str(), 7).as_str());
        line.append("%");
        lines.append(line.as_str());
        i += 1;
    }
    let mut s: String = String::from_str(TALLY_HEAD);
    s.append(lines.as_str());
    s
}

/// An option is the first argument that begins with its key and an equals sign, and its value
/// is what follows; later ones do not count.
pub proof fn law_first_option_counts(args: Seq<String>, key: Seq<char>, k: int, usual: Seq<char>)
    requires
        0 <= k < args.len(),
        begins_with(args[k]@, key + "="@),
        forall|i: int| 0 <= i < k ==> !begins_with((#[trigger] args[i])@, key + "="@),
    ensures
        option_of(args, key) is Some,
        key + "="@ + option_of(args, key)->0 =~= args[k]@,
        option_or(args, key, usual) == option_of(args, key)->0,
{
    let p = key + "="@;
    lemma_first_with(args, p, 0, k);
    let t = args[k]@;
    assert(t.subrange(0, p.len() as int) == p);
    assert(p + t.skip(p.len() as int) =~= t) by {
        assert forall|i: int| 0 <= i < t.len() implies #[trigger] (p + t.skip(p.len() as int))[i]
            == t[i] by {
            if i < p.len() {
                assert(t.subrange(0, p.len() as int)[i] == t[i]);
            }
        }
    }
}

proof fn lemma_first_with(args: Seq<String>, p: Seq<char>, i: int, k: int)
    requires
        0 <= i <= k < args.len(),
        begins_with(args[k]@, p),
        forall|j: int| 0 <= j < k ==> !begins_with((#[trigger] args[j])@, p),
    ensures
        first_with(args, p, i) == Some(args[k]@.skip(p.len() as int)),
    decreases k - i,
{
    if i < k {
        assert(!begins_with(args[i]@, p));
        lemma_first_with(args, p, i + 1, k);
    }
}

/// An option that no argument gives takes its usual value.
pub proof fn law_missing_option_is_usual(args: Seq<String>, key: Seq<char>, usual: Seq<char>)
    requires
        forall|i: int| 0 <= i < args.len() ==> !begins_with((#[trigger] args[i])@, key + "="@),
    ensures
        option_of(args, key) is None,
        option_or(args, key, usual) == usual,
{
    lemma_none_with(args, key + "="@, 0);
}

proof fn lemma_none_with(args: Seq<String>, p: Seq<char>, i: int)
    requires
        0 <= i <= args.len(),
        forall|j: int| 0 <= j < args.len() ==> !begins_with((#[trigger] args[j])@, p),
    ensures
        first_with(args, p, i) is None,
    decreases args.len() - i,
{
    if i < args.len() {
        assert(!begins_with(args[i]@, p));
        lemma_none_with(args, p, i + 1);
    }
}

/// A share in percent, times the whole, is a hundred times the part to half a step; of nothing
/// it is nothing.
pub proof fn law_share_is_of_the_whole(part: int, whole: int)
    requires
        whole >= 0,
    ensures
        whole > 0 ==> -whole <= 2 * (share_pct(part, whole) * whole - 100 * part * ONE) <= whole,
        whole == 0 ==> share_pct(part, whole) == 0,
{
    if whole > 0 {
        crate::fixed::lemma_round_div_error(100 * part * ONE, whole);
    }
}

/// A sample of fewer than thirty trades is warned of, a larger one is not.
pub proof fn law_small_samples_are_warned_of(trades: usize, data_dir: Seq<char>)
    ensures
        warning_text(trades, data_dir) is Some <==> trades < 30,
{
}

} // verus!
