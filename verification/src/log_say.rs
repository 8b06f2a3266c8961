//! The lines that the bot says in its log.
use crate::execution::{mode_name, mode_text, Mode};
use crate::state::Position;
use crate::text::{fixed_string, fixed_text, is_blank, trim_text, trimmed};
use vstd::prelude::*;

verus! {

/// The first line of a run.
pub fn say_start(mode: Mode, run_id: &str) -> (s: String)
    ensures
        s@ == "Start: mode="@ + mode_text(mode) + " run_id="@ + run_id@,
{
    let mut s: String = String::from_str("Start: mode=");
    s.append(mode_name(mode));
    s.append(" run_id=");
    s.append(run_id);
    s
}

/// Whether the exchange answers.
pub fn say_connected(ok: bool) -> (s: &'static str)
    ensures
        s@ == (if ok {
            "Connected to Binance."@
        } else {
            "Not connected to Binance."@
        }),
{
    if ok {
        "Connected to Binance."
    } else {
        "Not connected to Binance."
    }
}

/// The price.
pub fn say_price(price: i128) -> (s: String)
    ensures
        s@ == "BTC price: "@ + fixed_text(price as int, 2) + " USDT"@,
{
    let mut s: String = String::from_str("BTC price: ");
    s.append(fixed_string(price, 2).as_str());
    s.append(" USDT");
    s
}

/// The balances and what they are worth.
pub fn say_wallet(usdt_free: i128, btc_free: i128, equity_usdt: i128) -> (s: String)
    ensures
        s@ == "Wallet: USDT balance="@ + fixed_text(usdt_free as int, 2) + ", BTC="@ + fixed_text(
            btc_free as int,
            8,
        ) + ", Total Equity="@ + fixed_text(equity_usdt as int, 2) + " USDT"@,
{
    let mut s: String = String::from_str("Wallet: USDT balance=");
    s.append(fixed_string(usdt_free, 2).as_str());
    s.append(", BTC=");
    s.append(fixed_string(btc_free, 8).as_str());
    s.append(", Total Equity=");
    s.append(fixed_string(equity_usdt, 2).as_str());
    s.append(" USDT");
    s
}

/// A position in words.
pub open spec fn position_text(pos: Position) -> Seq<char> {
    match pos {
        Position::Flat => "State: Flat."@,
        Position::Long { qty, entry_price, stop_price, .. } => "State: Long qty="@ + fixed_text(
            qty as int,
            8,
        ) + " entry="@ + fixed_text(entry_price as int, 2) + " stop="@ + fixed_text(
            stop_price as int,
            2,
        ),
        Position::ExternalInventory { btc_qty, .. } => "State: ExternalInventory btc_qty="@
            + fixed_text(btc_qty as int, 8),
    }
}

/// The position.
pub fn say_state(pos: &Position) -> (s: String)
    ensures
        s@ == position_text(*pos),
{
    match pos {
        Position::Flat => String::from_str("State: Flat."),
        Position::Long { qty, entry_price, stop_price, .. } => {
            let mut s: String = String::from_str("State: Long qty=");
            s.append(fixed_string(*qty, 8).as_str());
            s.append(" entry=");
            s.append(fixed_string(*entry_price, 2).as_str());
            s.append(" stop=");
            s.append(fixed_string(*stop_price, 2).as_str());
            s
        },
        Position::ExternalInventory { btc_qty, .. } => {
            let mut s: String = String::from_str("State: ExternalInventory btc_qty=");
            s.append(fixed_string(*btc_qty, 8).as_str());
            s
        },
    }
}

/// What the bot does, in its own words.
pub fn say_action(msg: &str) -> (s: String)
    ensures
        s@ == msg@,
{
    String::from_str(msg)
}

/// Why the bot does it.
pub fn say_reason(msg: &str) -> (s: String)
    ensures
        s@ == "Reason: "@ + msg@,
{
    let mut s: String = String::from_str("Reason: ");
    s.append(msg);
    s
}

/// A decision, with its reason where there is one.
pub open spec fn decision_text(mode: Mode, decision: Seq<char>, reason: Seq<char>) -> Seq<char> {
    let head = "Decision ("@ + mode_text(mode) + "): "@ + trimmed(decision);
    if is_blank(reason) {
        head
    } else {
        head + " -> "@ + trimmed(reason)
    }
}

/// What the bot decided, and why.
pub fn say_decision_with_reason(mode: Mode, decision: &str, reason: &str) -> (s: String)
    ensures
        s@ == decision_text(mode, decision@, reason@),
{
    let mut s: String = String::from_str("Decision (");
    s.append(mode_name(mode));
    s.append("): ");
    s.append(trim_text(decision).as_str());
    let why: String = trim_text(reason);
    if !why.as_str().is_empty() {
        s.append(" -> ");
        s.append(why.as_str());
    }
    s
}

/// How a run ended.
pub fn say_end(end: &str) -> (s: String)
    ensures
        s@ == "End: "@ + trimmed(end@),
{
    let mut s: String = String::from_str("End: ");
    s.append(trim_text(end).as_str());
    s
}

} // verus!
