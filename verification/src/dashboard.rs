//! What the dashboard shows, and what it may be asked for.
use crate::execution::Mode;
use crate::features::Features;
use crate::fixed::{bounded, div_fixed, mul_bounded, quotient, times, LIMIT, ONE};
use crate::numeral::{digit_test, is_digit};
use crate::paths::{is_absolute, path_is_absolute};
use crate::pipeline::{label_of, position_label};
use crate::regime::{Regime, RegimeResult};
use crate::state::{BotState, Position};
use crate::text::{chars_of, nat_text, u64_string};
use vstd::prelude::*;

verus! {

/// A trade that was closed while the dashboard looked on.
#[derive(Clone, Copy, Debug, PartialEq, Eq, Structural)]
pub struct TradeRecord {
    pub closed_at_ms: u64,
    pub entry_price: i128,
    pub exit_price: i128,
    pub qty_btc: i128,
    pub pnl_usdt: i128,
    pub won: bool,
}

impl TradeRecord {
    /// What became of the trade.
    pub fn result(&self) -> (s: &'static str)
        ensures
            s@ == (if self.won {
                "WIN"@
            } else {
                "LOSS"@
            }),
    {
        if self.won {
            "WIN"
        } else {
            "LOSS"
        }
    }
}

/// The most trades that are shown.
pub const RECENT_MAX: usize = 20;

/// The position as it is shown.
#[derive(Clone, Copy, Debug, PartialEq, Eq, Structural)]
pub struct Shown {
    pub is_long: bool,
    pub is_flat: bool,
    pub entry_price: i128,
    pub qty_btc: i128,
    pub stop_price: i128,
    pub tp_price: i128,
    pub unrealised_pnl_usdt: i128,
}

/// The position as it is shown at a price.
pub open spec fn shown_at(p: Position, price: i128) -> Shown {
    match p {
        Position::Long { entry_price, qty, stop_price, tp_price, .. } => Shown {
            is_long: true,
            is_flat: false,
            entry_price,
            qty_btc: qty,
            stop_price,
            tp_price: match tp_price {
                Some(t) => t,
                None => 0,
            },
            unrealised_pnl_usdt: times(price - entry_price, qty as int) as i128,
        },
        _ => Shown {
            is_long: false,
            is_flat: p is Flat,
            entry_price: 0,
            qty_btc: 0,
            stop_price: 0,
            tp_price: 0,
            unrealised_pnl_usdt: 0,
        },
    }
}

/// Shows the position at a price.
pub fn show_position(p: &Position, price: i128) -> (s: Shown)
    requires
        p.ok(),
        bounded(price as int),
    ensures
        s == shown_at(*p, price),
{
    match p {
        Position::Long { entry_price, qty, stop_price, tp_price, .. } => Shown {
            is_long: true,
            is_flat: false,
            entry_price: *entry_price,
            qty_btc: *qty,
            stop_price: *stop_price,
            tp_price: match tp_price {
                Some(t) => *t,
                None => 0,
            },
            unrealised_pnl_usdt: mul_bounded(price - *entry_price, *qty),
        },
        Position::Flat => Shown {
            is_long: false,
            is_flat: true,
            entry_price: 0,
            qty_btc: 0,
            stop_price: 0,
            tp_price: 0,
            unrealised_pnl_usdt: 0,
        },
        Position::ExternalInventory { .. } => Shown {
            is_long: false,
            is_flat: false,
            entry_price: 0,
            qty_btc: 0,
            stop_price: 0,
            tp_price: 0,
            unrealised_pnl_usdt: 0,
        },
    }
}

/// What the dashboard shows of a run.
#[derive(Debug)]
pub struct DashboardSnapshot {
    pub captured_at_ms: u64,
    pub price_usdt: i128,
    pub regime: Regime,
    pub regime_reason: String,
    pub position: &'static str,
    pub shown: Shown,
    pub usdt_free: i128,
    pub btc_free: i128,
    pub equity_usdt: i128,
    pub session_pnl_usdt: i128,
    pub peak_equity_usdt: i128,
    pub drawdown_frac: i128,
    pub is_dead: bool,
    pub trades_today: u32,
    pub max_trades_per_day: u32,
    pub in_cooldown: bool,
    pub in_hibernation: bool,
    pub features: Features,
    pub htf_bullish: bool,
    pub bearish_bias: bool,
    pub vol_squeeze: bool,
    pub last_action: String,
    pub last_reason: String,
    pub mode: Mode,
    pub realized_pnl_usdt: i128,
    /// The last trades, the newest last.
    pub recent_trades: Vec<TradeRecord>,
}

impl DashboardSnapshot {
    /// What the next snapshot computes with is within the range of the arithmetic,
    /// and there are not too many trades.
    pub open spec fn ok(self) -> bool {
        bounded(self.realized_pnl_usdt as int) && self.recent_trades@.len() <= RECENT_MAX
    }
}

/// The trades that are shown next: the trade that was just closed joins them, and
/// the oldest leaves where they are too many. A trade was closed where the last
/// snapshot shows a position and this one shows none.
pub open spec fn recent_after(
    prev: DashboardSnapshot,
    now: Shown,
    now_ms: u64,
    price: i128,
    realized: i128,
) -> Seq<TradeRecord> {
    let old_trades = prev.recent_trades@;
    if prev.shown.is_long && now.is_flat && prev.shown.qty_btc > 0 {
        let pnl = (realized - prev.realized_pnl_usdt) as i128;
        let all = old_trades.push(
            TradeRecord {
                closed_at_ms: now_ms,
                entry_price: prev.shown.entry_price,
                exit_price: price,
                qty_btc: prev.shown.qty_btc,
                pnl_usdt: pnl,
                won: pnl >= 0,
            },
        );
        if all.len() > RECENT_MAX {
            all.drop_first()
        } else {
            all
        }
    } else {
        old_trades
    }
}

fn carry_trades(
    prev: Option<DashboardSnapshot>,
    now: &Shown,
    now_ms: u64,
    price: i128,
    realized: i128,
) -> (v: Vec<TradeRecord>)
    requires
        prev is Some ==> prev->0.ok(),
        bounded(realized as int),
    ensures
        v@ == (match prev {
            Some(p) => recent_after(p, *now, now_ms, price, realized),
            None => Seq::empty(),
        }),
        v@.len() <= RECENT_MAX,
{
    let p: DashboardSnapshot = match prev {
        Some(p) => p,
        None => return Vec::new(),
    };
    let closed: bool = p.shown.is_long && now.is_flat && p.shown.qty_btc > 0;
    let entry_price: i128 = p.shown.entry_price;
    let qty_btc: i128 = p.shown.qty_btc;
    let pnl_usdt: i128 = realized - p.realized_pnl_usdt;
    let mut v: Vec<TradeRecord> = p.recent_trades;
    if closed {
        v.push(
            TradeRecord {
                closed_at_ms: now_ms,
                entry_price,
                exit_price: price,
                qty_btc,
                pnl_usdt,
                won: pnl_usdt >= 0,
            },
        );
        if v.len() > RECENT_MAX {
            let ghost all = v@;
            v.remove(0);
            assert(v@ =~= all.drop_first());
        }
    }
    v
}

/// How far the equity is under its peak, as a fraction of it.
pub open spec fn shown_drawdown(peak: int, equity: int) -> int {
    if peak > 0 {
        quotient(peak - equity, peak)
    } else {
        0
    }
}

/// Takes a snapshot at the end of a run.
pub fn capture(
    prev: Option<DashboardSnapshot>,
    st: &BotState,
    f: &Features,
    r: &RegimeResult,
    price: i128,
    now_ms: u64,
    usdt_free: i128,
    btc_free: i128,
    max_trades_per_day: u32,
    action: &str,
    reason: &str,
    mode: Mode,
) -> (s: DashboardSnapshot)
    requires
        prev is Some ==> prev->0.ok(),
        st.ok(),
        bounded(price as int),
    ensures
        s.captured_at_ms == now_ms,
        s.price_usdt == price,
        s.regime == r.regime,
        s.regime_reason@ == r.reason@,
        s.position@ == label_of(st.position),
        s.shown == shown_at(st.position, price),
        s.usdt_free == usdt_free,
        s.btc_free == btc_free,
        s.equity_usdt == st.equity_usdt,
        s.session_pnl_usdt == st.session_pnl_usdt,
        s.peak_equity_usdt == st.peak_equity_usdt,
        s.drawdown_frac == shown_drawdown(st.peak_equity_usdt as int, st.equity_usdt as int),
        s.is_dead == st.is_dead,
        s.trades_today == st.trades_today,
        s.max_trades_per_day == max_trades_per_day,
        s.in_cooldown == (now_ms < st.cooldown_until_ms),
        s.in_hibernation == (now_ms < st.hibernation_until_ms),
        s.features == *f,
        s.htf_bullish == r.htf_bullish,
        s.bearish_bias == r.bearish_bias,
        s.vol_squeeze == r.vol_squeeze,
        s.last_action@ == action@,
        s.last_reason@ == reason@,
        s.mode == mode,
        s.realized_pnl_usdt == st.realized_pnl_usdt,
        s.recent_trades@ == (match prev {
            Some(p) => recent_after(p, s.shown, now_ms, price, st.realized_pnl_usdt),
            None => Seq::empty(),
        }),
        s.ok(),
{
    let shown: Shown = show_position(&st.position, price);
    let drawdown_frac: i128 = if st.peak_equity_usdt > 0 {
        div_fixed(st.peak_equity_usdt - st.equity_usdt, st.peak_equity_usdt)
    } else {
        0
    };
    let recent_trades: Vec<TradeRecord> = carry_trades(
        prev,
        &shown,
        now_ms,
        price,
        st.realized_pnl_usdt,
    );
    DashboardSnapshot {
        captured_at_ms: now_ms,
        price_usdt: price,
        regime: r.regime,
        regime_reason: String::from_str(r.reason.as_str()),
        position: position_label(&st.position),
        shown,
        usdt_free,
        btc_free,
        equity_usdt: st.equity_usdt,
        session_pnl_usdt: st.session_pnl_usdt,
        peak_equity_usdt: st.peak_equity_usdt,
        drawdown_frac,
        is_dead: st.is_dead,
        trades_today: st.trades_today,
        max_trades_per_day,
        in_cooldown: now_ms < st.cooldown_until_ms,
        in_hibernation: now_ms < st.hibernation_until_ms,
        features: *f,
        htf_bullish: r.htf_bullish,
        bearish_bias: r.bearish_bias,
        vol_squeeze: r.vol_squeeze,
        last_action: String::from_str(action),
        last_reason: String::from_str(reason),
        mode,
        realized_pnl_usdt: st.realized_pnl_usdt,
        recent_trades,
    }
}

/// Whether a character is a letter or a digit of ASCII.
pub open spec fn is_plain_char(c: char) -> bool {
    is_digit(c) || ('a' <= c && c <= 'z') || ('A' <= c && c <= 'Z')
}

/// Whether a text is the name of a symbol: letters and digits, and at least one.
pub open spec fn is_symbol(s: Seq<char>) -> bool {
    s.len() > 0 && forall|i: int| 0 <= i < s.len() ==> is_plain_char(#[trigger] s[i])
}

/// Whether a text is the name of a symbol.
pub fn symbol_ok(s: &str) -> (r: bool)
    ensures
        r == is_symbol(s@),
{
    let v: Vec<char> = chars_of(s);
    let mut i: usize = 0;
    while i < v.len()
        invariant
            i <= v@.len(),
            v@ == s@,
            forall|k: int| 0 <= k < i ==> is_plain_char(#[trigger] v@[k]),
        decreases v@.len() - i,
    {
        let c: char = v[i];
        let plain: bool = digit_test(c) || ('a' <= c && c <= 'z') || ('A' <= c && c <= 'Z');
        if !plain {
            assert(!is_plain_char(s@[i as int]));
            return false;
        }
        i += 1;
    }
    v.len() > 0
}

/// Why a request is refused.
#[derive(Clone, Copy, Debug, PartialEq, Eq, Structural)]
pub enum RequestError {
    BadSymbol,
    BadDirectory,
}

impl RequestError {
    /// The refusal in words.
    pub fn message(self) -> (s: &'static str)
        ensures
            s@ == (match self {
                RequestError::BadSymbol => "symbol must be alphanumeric"@,
                RequestError::BadDirectory => "directory must be a relative path"@,
            }),
    {
        match self {
            RequestError::BadSymbol => "symbol must be alphanumeric",
            RequestError::BadDirectory => "directory must be a relative path",
        }
    }
}

/// The text of a wish, or the usual one.
pub open spec fn wish_or(wish: Option<String>, usual: Seq<char>) -> Seq<char> {
    match wish {
        Some(t) => t@,
        None => usual,
    }
}

fn text_or(wish: Option<String>, usual: &str) -> (s: String)
    ensures
        s@ == wish_or(wish, usual@),
{
    match wish {
        Some(t) => t,
        None => String::from_str(usual),
    }
}

/// Whether a symbol and a directory may be asked for.
pub open spec fn judged(symbol: Seq<char>, dir: Seq<char>) -> Result<(), RequestError> {
    if !is_symbol(symbol) {
        Err(RequestError::BadSymbol)
    } else if is_absolute(dir) {
        Err(RequestError::BadDirectory)
    } else {
        Ok(())
    }
}

fn judge(symbol: &str, dir: &str) -> (r: Result<(), RequestError>)
    ensures
        r == judged(symbol@, dir@),
{
    if !symbol_ok(symbol) {
        Err(RequestError::BadSymbol)
    } else if path_is_absolute(dir) {
        Err(RequestError::BadDirectory)
    } else {
        Ok(())
    }
}

/// A request for a backtest.
#[derive(Debug)]
pub struct BacktestRequest {
    pub symbol: Option<String>,
    pub data_dir: Option<String>,
    pub start_frac: Option<i128>,
    pub end_frac: Option<i128>,
    pub walk_forward: Option<usize>,
    pub test_fraction: Option<i128>,
}

/// What a backtest is to do.
#[derive(Debug)]
pub struct BacktestPlan {
    pub symbol: String,
    pub data_dir: String,
    /// Whether only a part of the data is used.
    pub has_range: bool,
    pub start_frac: i128,
    pub end_frac: i128,
    /// The number of windows, where the backtest goes window by window.
    pub walk_forward: Option<usize>,
    pub test_fraction: i128,
}

/// A number, or the usual one.
pub open spec fn number_or(wish: Option<i128>, usual: i128) -> i128 {
    match wish {
        Some(v) => v,
        None => usual,
    }
}

fn fixed_or(wish: Option<i128>, usual: i128) -> (v: i128)
    ensures
        v == number_or(wish, usual),
{
    match wish {
        Some(v) => v,
        None => usual,
    }
}

/// Plans a backtest. The symbol has to be a name, and the directory must not start
/// at the root.
pub fn plan_backtest(req: BacktestRequest) -> (r: Result<BacktestPlan, RequestError>)
    ensures
        match r {
            Err(e) => judged(
                wish_or(req.symbol, "BTCUSDT"@),
                wish_or(req.data_dir, "backtest_data"@),
            ) == Err::<(), RequestError>(e),
            Ok(p) => {
                &&& judged(p.symbol@, p.data_dir@) is Ok
                &&& p.symbol@ == wish_or(req.symbol, "BTCUSDT"@)
                &&& p.data_dir@ == wish_or(req.data_dir, "backtest_data"@)
                &&& p.has_range == (req.start_frac is Some || req.end_frac is Some)
                &&& p.start_frac == number_or(req.start_frac, 0)
                &&& p.end_frac == number_or(req.end_frac, ONE)
                &&& p.walk_forward == req.walk_forward
                &&& p.test_fraction == number_or(req.test_fraction, 300_000_000_000)
            },
        },
{
    let symbol: String = text_or(req.symbol, "BTCUSDT");
    let data_dir: String = text_or(req.data_dir, "backtest_data");
    if let Err(e) = judge(symbol.as_str(), data_dir.as_str()) {
        return Err(e);
    }
    Ok(
        BacktestPlan {
            symbol,
            data_dir,
            has_range: req.start_frac.is_some() || req.end_frac.is_some(),
            start_frac: fixed_or(req.start_frac, 0),
            end_frac: fixed_or(req.end_frac, ONE),
            walk_forward: req.walk_forward,
            test_fraction: fixed_or(req.test_fraction, 300_000_000_000),
        },
    )
}

/// What a download of the history is to do.
#[derive(Debug)]
pub struct FetchPlan {
    pub symbol: String,
    pub out_dir: String,
    pub days: i64,
}

/// Plans a download of the history.
pub fn plan_fetch(symbol: Option<String>, days: Option<i64>, out_dir: Option<String>) -> (r: Result<
    FetchPlan,
    RequestError,
>)
    ensures
        match r {
            Err(e) => judged(
                wish_or(symbol, "BTCUSDT"@),
                wish_or(out_dir, "backtest_data"@),
            ) == Err::<(), RequestError>(e),
            Ok(p) => {
                &&& judged(p.symbol@, p.out_dir@) is Ok
                &&& p.symbol@ == wish_or(symbol, "BTCUSDT"@)
                &&& p.out_dir@ == wish_or(out_dir, "backtest_data"@)
                &&& p.days == (if days is None {
                    90
                } else {
                    crate::fixed::clamped(days->0 as int, 1, 720)
                })
            },
        },
{
    let symbol: String = text_or(symbol, "BTCUSDT");
    let out_dir: String = text_or(out_dir, "backtest_data");
    if let Err(e) = judge(symbol.as_str(), out_dir.as_str()) {
        return Err(e);
    }
    Ok(FetchPlan { symbol, out_dir, days: crate::history::history_days(days) })
}

/// The name of the file for the report of a single run.
pub fn single_report_name(symbol: &str, now_ms: u64) -> (s: String)
    ensures
        s@ == "backtest_"@ + symbol@ + "_"@ + nat_text(now_ms as nat) + ".html"@,
{
    let mut s: String = String::from_str("backtest_");
    s.append(symbol);
    s.append("_");
    s.append(u64_string(now_ms).as_str());
    s.append(".html");
    s
}

/// What a finished backtest says.
pub fn reports_message(n: usize) -> (s: String)
    ensures
        s@ == "Wrote "@ + nat_text(n as nat) + " report(s)."@,
{
    let mut s: String = String::from_str("Wrote ");
    s.append(u64_string(n as u64).as_str());
    s.append(" report(s).");
    s
}

/// What a finished download says.
pub fn files_message(n: usize) -> (s: String)
    ensures
        s@ == "Fetched "@ + nat_text(n as nat) + " interval file(s)."@,
{
    let mut s: String = String::from_str("Fetched ");
    s.append(u64_string(n as u64).as_str());
    s.append(" interval file(s).");
    s
}

/// Whether a file is a page: its name ends in `.html` and is more than that.
pub open spec fn is_page(name: Seq<char>) -> bool {
    name.len() > 5 && name.skip(name.len() - 5) == seq!['.', 'h', 't', 'm', 'l']
}

/// Whether a file is a page.
pub fn is_html_report(name: &str) -> (r: bool)
    ensures
        r == is_page(name@),
{
    let v: Vec<char> = chars_of(name);
    let n: usize = v.len();
    if n <= 5 {
        return false;
    }
    let r: bool = v[n - 5] == '.' && v[n - 4] == 'h' && v[n - 3] == 't' && v[n - 2] == 'm' && v[n
        - 1] == 'l';
    proof {
        let tail = name@.skip(name@.len() - 5);
        assert(tail[0] == v@[n - 5] && tail[1] == v@[n - 4] && tail[2] == v@[n - 3] && tail[3]
            == v@[n - 2] && tail[4] == v@[n - 1]);
        if r {
            assert(tail =~= seq!['.', 'h', 't', 'm', 'l']);
        }
    }
    r
}

/// Whether the file `a` is listed before the file `b`: it is newer, or as new and
/// came first.
pub open spec fn listed_before(times_ms: Seq<u64>, a: int, b: int) -> bool {
    times_ms[a] > times_ms[b] || (times_ms[a] == times_ms[b] && a < b)
}

/// Whether `order` lists the first `n` files, the newest first.
pub open spec fn is_newest_first(order: Seq<usize>, times_ms: Seq<u64>, n: int) -> bool {
    &&& order.len() == n
    &&& forall|i: int| 0 <= i < n ==> (#[trigger] order[i]) < n
    &&& forall|i: int, j: int|
        0 <= i < j < n ==> listed_before(times_ms, #[trigger] order[i] as int, #[trigger] order[j] as int)
}

/// The order in which files are listed: the newest first, and those that are as new
/// in the order in which they came.
pub fn newest_first(times_ms: &Vec<u64>) -> (order: Vec<usize>)
    ensures
        is_newest_first(order@, times_ms@, times_ms@.len() as int),
{
    let mut order: Vec<usize> = Vec::new();
    let mut i: usize = 0;
    while i < times_ms.len()
        invariant
            i <= times_ms@.len(),
            is_newest_first(order@, times_ms@, i as int),
        decreases times_ms@.len() - i,
    {
        let mut at: usize = 0;
        while at < order.len() && times_ms[order[at]] >= times_ms[i]
            invariant
                i < times_ms@.len(),
                at <= order@.len(),
                is_newest_first(order@, times_ms@, i as int),
                forall|k: int|
                    0 <= k < at ==> times_ms@[(#[trigger] order@[k]) as int] >= times_ms@[i as int],
            decreases order@.len() - at,
        {
            at += 1;
        }
        let ghost before = order@;
        order.insert(at, i);
        proof {
            assert(order@ == before.insert(at as int, i));
            assert forall|k: int| 0 <= k < i + 1 implies (#[trigger] order@[k]) < i + 1 by {
                if k < at {
                    assert(order@[k] == before[k]);
                } else if k > at {
                    assert(order@[k] == before[k - 1]);
                }
            }
            assert forall|j: int, k: int| 0 <= j < k < i + 1 implies listed_before(
                times_ms@,
                #[trigger] order@[j] as int,
                #[trigger] order@[k] as int,
            ) by {
                let a = if j < at {
                    before[j]
                } else if j == at {
                    i
                } else {
                    before[j - 1]
                };
                let b = if k < at {
                    before[k]
                } else if k == at {
                    i
                } else {
                    before[k - 1]
                };
                assert(order@[j] == a && order@[k] == b);
                if j == at {
                    assert(times_ms@[before[at as int] as int] < times_ms@[i as int]);
                    if k - 1 > at {
                        assert(listed_before(
                            times_ms@,
                            before[at as int] as int,
                            before[k - 1] as int,
                        ));
                    }
                }
            }
        }
        i += 1;
    }
    order
}

/// A file is listed once.
pub proof fn law_files_are_listed_once(order: Seq<usize>, times_ms: Seq<u64>, n: int, i: int, j: int)
    requires
        is_newest_first(order, times_ms, n),
        0 <= i < j < n,
    ensures
        order[i] != order[j],
{
    assert(listed_before(times_ms, order[i] as int, order[j] as int));
}

/// A position that is gone joins the trades as the newest one.
pub proof fn law_closed_trade_is_shown(
    prev: DashboardSnapshot,
    now: Shown,
    now_ms: u64,
    price: i128,
    realized: i128,
)
    requires
        prev.ok(),
        prev.shown.is_long,
        prev.shown.qty_btc > 0,
        now.is_flat,
        bounded(realized as int),
    ensures
        ({
            let t = recent_after(prev, now, now_ms, price, realized);
            &&& 0 < t.len() <= RECENT_MAX
            &&& t.last().closed_at_ms == now_ms
            &&& t.last().exit_price == price
            &&& t.last().pnl_usdt == realized - prev.realized_pnl_usdt
        }),
{
}

/// A long position is shown as it is, with what it has won at the price: the rise times the
/// quantity, to half a step. Anything else shows nothing.
pub proof fn law_position_is_shown_with_its_gain(p: Position, price: i128)
    ensures
        p is Long ==> {
            let s = shown_at(p, price);
            &&& s.is_long && !s.is_flat
            &&& s.entry_price == p->entry_price && s.qty_btc == p->Long_qty
            &&& s.stop_price == p->stop_price
            &&& p->tp_price is Some ==> Some(s.tp_price) == p->tp_price
            &&& p->tp_price is None ==> s.tp_price == 0
            &&& -LIMIT < s.unrealised_pnl_usdt < LIMIT ==> -ONE <= 2 * (s.unrealised_pnl_usdt * ONE
                - (price - p->entry_price) * p->Long_qty) <= ONE
        },
        !(p is Long) ==> {
            let s = shown_at(p, price);
            !s.is_long && s.qty_btc == 0 && s.unrealised_pnl_usdt == 0 && s.entry_price == 0
                && s.is_flat == (p is Flat)
        },
{
    if p is Long {
        crate::fixed::lemma_round_div_error((price - p->entry_price) * p->Long_qty, ONE as int);
    }
}

/// A position that was closed is added to the recent trades with what it won or lost, and the
/// oldest one leaves where there is no more room; otherwise the list stays.
pub proof fn law_closed_position_joins_the_recent_trades(
    prev: DashboardSnapshot,
    now: Shown,
    now_ms: u64,
    price: i128,
    realized: i128,
)
    requires
        prev.ok(),
        bounded(realized as int),
    ensures
        ({
            let r = recent_after(prev, now, now_ms, price, realized);
            let was = prev.recent_trades@;
            let closed = prev.shown.is_long && now.is_flat && prev.shown.qty_btc > 0;
            &&& !closed ==> r == was
            &&& closed ==> {
                &&& r.len() > 0
                &&& r.last().pnl_usdt == realized - prev.realized_pnl_usdt
                &&& r.last().won <==> realized >= prev.realized_pnl_usdt
                &&& r.last().entry_price == prev.shown.entry_price
                &&& r.last().exit_price == price
                &&& r.last().qty_btc == prev.shown.qty_btc
                &&& r.last().closed_at_ms == now_ms
                &&& was.len() < RECENT_MAX ==> r.len() == was.len() + 1 && r.drop_last() =~= was
                &&& was.len() == RECENT_MAX ==> r.len() == RECENT_MAX && r.drop_last()
                    =~= was.drop_first()
            }
        }),
{
}

/// The drawdown that is shown is what the equity is under its peak, as a share of the peak.
pub proof fn law_shown_drawdown_is_a_share_of_the_peak(peak: int, equity: int)
    ensures
        peak > 0 ==> -peak <= 2 * (shown_drawdown(peak, equity) * peak - (peak - equity) * ONE)
            <= peak,
        peak <= 0 ==> shown_drawdown(peak, equity) == 0,
{
    if peak > 0 {
        crate::fixed::lemma_round_div_error((peak - equity) * ONE, peak);
    }
}

/// A request is accepted exactly where its symbol is made of letters and digits and its
/// directory is a relative one.
pub proof fn law_requests_are_judged(symbol: Seq<char>, dir: Seq<char>)
    ensures
        judged(symbol, dir) is Ok <==> symbol.len() > 0 && (forall|i: int|
            0 <= i < symbol.len() ==> is_plain_char(#[trigger] symbol[i])) && !(dir.len() > 0
            && dir[0] == '/'),
        judged(symbol, dir) == Err::<(), RequestError>(RequestError::BadSymbol) <==> !is_symbol(
            symbol,
        ),
        !is_plain_char('/') && !is_plain_char('.') && !is_plain_char('\\'),
{
}

/// Files are listed from the newest to the oldest.
pub proof fn law_newest_files_come_first(
    order: Seq<usize>,
    times_ms: Seq<u64>,
    n: int,
    i: int,
    j: int,
)
    requires
        is_newest_first(order, times_ms, n),
        0 <= i < j < n,
    ensures
        times_ms[order[i] as int] >= times_ms[order[j] as int],
        times_ms[order[i] as int] == times_ms[order[j] as int] ==> order[i] < order[j],
{
    assert(listed_before(times_ms, order[i] as int, order[j] as int));
}

} // verus!
