//! The mode of the bot, and the orders that it sends in each mode.
use crate::fixed::min_of;
use crate::money::{plain, plain_dec};
use crate::fixed::bounded;
use crate::order::{order_query, NewOrder};
use crate::text::{fixed_string, fixed_text, same_text};
use vstd::prelude::*;

verus! {

/// Whether money moves.
#[derive(Clone, Copy, Debug, PartialEq, Eq, Structural)]
pub enum Mode {
    Practice,
    Live,
}

/// Whether the switch for live trading is set: only the text `1` sets it.
pub fn is_live_trading_enabled(value: Option<&str>) -> (r: bool)
    ensures
        r == (value is Some && value->0@ == "1"@),
{
    match value {
        Some(v) => same_text(v, "1"),
        None => false,
    }
}

/// Whether live trading is confirmed: only the text `YES` confirms it.
pub fn is_live_trading_confirmed(value: Option<&str>) -> (r: bool)
    ensures
        r == (value is Some && value->0@ == "YES"@),
{
    match value {
        Some(v) => same_text(v, "YES"),
        None => false,
    }
}

/// The mode that the two latches give: live where trading is enabled and
/// confirmed, practice otherwise.
pub fn mode_from_latches(enabled: Option<&str>, confirmed: Option<&str>) -> (m: Mode)
    ensures
        m == Mode::Live <==> (enabled is Some && enabled->0@ == "1"@ && confirmed is Some
            && confirmed->0@ == "YES"@),
{
    if is_live_trading_enabled(enabled) && is_live_trading_confirmed(confirmed) {
        Mode::Live
    } else {
        Mode::Practice
    }
}

/// Whether the bot refuses to start: a key that may withdraw is not used live.
pub fn refuses_key(mode: Mode, withdrawals_enabled: bool) -> (r: bool)
    ensures
        r == (mode == Mode::Live && withdrawals_enabled),
{
    mode == Mode::Live && withdrawals_enabled
}

/// The line that tells the mode.
pub open spec fn mode_line(mode: Mode) -> Seq<char> {
    match mode {
        Mode::Practice => "Mode: PRACTICE (no money moves)."@,
        Mode::Live => "Mode: LIVE (real money)."@,
    }
}

/// The line that tells the mode.
pub fn mode_log_line(mode: Mode) -> (s: &'static str)
    ensures
        s@ == mode_line(mode),
{
    match mode {
        Mode::Practice => "Mode: PRACTICE (no money moves).",
        Mode::Live => "Mode: LIVE (real money).",
    }
}

/// The name of a mode.
pub open spec fn mode_text(mode: Mode) -> Seq<char> {
    match mode {
        Mode::Practice => "Practice"@,
        Mode::Live => "Live"@,
    }
}

/// The name of a mode.
pub fn mode_name(mode: Mode) -> (s: &'static str)
    ensures
        s@ == mode_text(mode),
{
    match mode {
        Mode::Practice => "Practice",
        Mode::Live => "Live",
    }
}

/// Where an order is sent.
#[derive(Clone, Copy, Debug, PartialEq, Eq, Structural)]
pub enum Endpoint {
    /// The exchange checks the order and forgets it.
    TestOrder,
    /// The exchange executes the order.
    LiveOrder,
}

/// The endpoint of a mode: a practice order never reaches the live endpoint.
pub open spec fn endpoint_of(mode: Mode) -> Endpoint {
    match mode {
        Mode::Practice => Endpoint::TestOrder,
        Mode::Live => Endpoint::LiveOrder,
    }
}

impl Endpoint {
    /// The path of the endpoint.
    pub open spec fn path_text(self) -> Seq<char> {
        match self {
            Endpoint::TestOrder => "/api/v3/order/test"@,
            Endpoint::LiveOrder => "/api/v3/order"@,
        }
    }

    /// The path of the endpoint.
    pub fn path(self) -> (s: &'static str)
        ensures
            s@ == self.path_text(),
    {
        match self {
            Endpoint::TestOrder => "/api/v3/order/test",
            Endpoint::LiveOrder => "/api/v3/order",
        }
    }

    /// The endpoint of a mode.
    pub fn for_mode(mode: Mode) -> (e: Endpoint)
        ensures
            e == endpoint_of(mode),
    {
        match mode {
            Mode::Practice => Endpoint::TestOrder,
            Mode::Live => Endpoint::LiveOrder,
        }
    }
}

/// Which way a market order goes.
#[derive(Clone, Copy, Debug, PartialEq, Eq, Structural)]
pub enum Side {
    Buy,
    Sell,
}

impl Side {
    pub open spec fn side_text(self) -> Seq<char> {
        match self {
            Side::Buy => "BUY"@,
            Side::Sell => "SELL"@,
        }
    }

    /// The side as the exchange names it.
    pub fn name(self) -> (s: &'static str)
        ensures
            s@ == self.side_text(),
    {
        match self {
            Side::Buy => "BUY",
            Side::Sell => "SELL",
        }
    }
}

/// An order ready to be sent.
#[derive(Debug)]
pub struct OrderPlan {
    pub endpoint: Endpoint,
    pub query: String,
}

/// Why an order is not sent.
#[derive(Clone, Copy, Debug, PartialEq, Eq, Structural)]
pub enum OrderRefusal {
    NothingToBuy,
    NothingToSell,
    NothingToProtect,
    BadPrices,
    LimitAboveStop,
}

impl OrderRefusal {
    pub open spec fn refusal_text(self) -> Seq<char> {
        match self {
            OrderRefusal::NothingToBuy => "Refusing to buy: qty <= 0"@,
            OrderRefusal::NothingToSell => "Refusing to sell: qty <= 0"@,
            OrderRefusal::NothingToProtect => "Refusing to place stop: qty <= 0"@,
            OrderRefusal::BadPrices => "Refusing to place stop: bad prices"@,
            OrderRefusal::LimitAboveStop => "Refusing to place stop: limit_price > stop_price"@,
        }
    }

    /// The message of the refusal.
    pub fn message(self) -> (s: &'static str)
        ensures
            s@ == self.refusal_text(),
    {
        match self {
            OrderRefusal::NothingToBuy => "Refusing to buy: qty <= 0",
            OrderRefusal::NothingToSell => "Refusing to sell: qty <= 0",
            OrderRefusal::NothingToProtect => "Refusing to place stop: qty <= 0",
            OrderRefusal::BadPrices => "Refusing to place stop: bad prices",
            OrderRefusal::LimitAboveStop => "Refusing to place stop: limit_price > stop_price",
        }
    }
}

/// The refusal of an empty market order.
pub open spec fn nothing_to(side: Side) -> OrderRefusal {
    match side {
        Side::Buy => OrderRefusal::NothingToBuy,
        Side::Sell => OrderRefusal::NothingToSell,
    }
}

/// A market order: refused where there is nothing to trade, otherwise sent to the
/// endpoint of the mode.
pub fn market_order(mode: Mode, side: Side, symbol: &str, qty: i128, qty_precision: u32) -> (r: Result<
    OrderPlan,
    OrderRefusal,
>)
    requires
        qty_precision <= 12,
    ensures
        match r {
            Ok(p) => qty > 0 && p.endpoint == endpoint_of(mode) && p.query@ == order_query(
                symbol@,
                side.side_text(),
                "MARKET"@,
                fixed_text(qty as int, qty_precision as nat),
            ),
            Err(e) => qty <= 0 && e == nothing_to(side),
        },
{
    if qty <= 0 {
        return Err(
            match side {
                Side::Buy => OrderRefusal::NothingToBuy,
                Side::Sell => OrderRefusal::NothingToSell,
            },
        );
    }
    let order: NewOrder = NewOrder {
        symbol,
        side: side.name(),
        order_type: "MARKET",
        quantity: fixed_string(qty, qty_precision),
    };
    Ok(OrderPlan { endpoint: Endpoint::for_mode(mode), query: order.to_query_string() })
}

/// The query of a stop-loss-limit sell.
pub open spec fn stop_query(
    symbol: Seq<char>,
    quantity: Seq<char>,
    stop_price: Seq<char>,
    price: Seq<char>,
) -> Seq<char> {
    "symbol="@ + symbol + "&side=SELL&type=STOP_LOSS_LIMIT&timeInForce=GTC&quantity="@ + quantity
        + "&stopPrice="@ + stop_price + "&price="@ + price
}

/// Why a stop order is refused, if it is.
pub open spec fn stop_refusal(qty: int, stop_price: int, limit_price: int) -> Option<OrderRefusal> {
    if qty <= 0 {
        Some(OrderRefusal::NothingToProtect)
    } else if stop_price <= 0 || limit_price <= 0 {
        Some(OrderRefusal::BadPrices)
    } else if limit_price > stop_price {
        Some(OrderRefusal::LimitAboveStop)
    } else {
        None
    }
}

/// A protective stop: a limit sell that the exchange places once the price falls
/// to `stop_price`.
pub fn stop_loss_limit_sell(
    mode: Mode,
    symbol: &str,
    qty: i128,
    qty_precision: u32,
    stop_price: i128,
    limit_price: i128,
    price_precision: u32,
) -> (r: Result<OrderPlan, OrderRefusal>)
    requires
        qty_precision <= 12,
        price_precision <= 12,
    ensures
        match r {
            Ok(p) => stop_refusal(qty as int, stop_price as int, limit_price as int) is None
                && p.endpoint == endpoint_of(mode) && p.query@ == stop_query(
                symbol@,
                fixed_text(qty as int, qty_precision as nat),
                fixed_text(stop_price as int, price_precision as nat),
                fixed_text(limit_price as int, price_precision as nat),
            ),
            Err(e) => stop_refusal(qty as int, stop_price as int, limit_price as int) == Some(e),
        },
{
    if qty <= 0 {
        return Err(OrderRefusal::NothingToProtect);
    }
    if stop_price <= 0 || limit_price <= 0 {
        return Err(OrderRefusal::BadPrices);
    }
    if limit_price > stop_price {
        return Err(OrderRefusal::LimitAboveStop);
    }
    let mut query: String = String::from_str("symbol=");
    query.append(symbol);
    query.append("&side=SELL&type=STOP_LOSS_LIMIT&timeInForce=GTC&quantity=");
    query.append(fixed_string(qty, qty_precision).as_str());
    query.append("&stopPrice=");
    query.append(fixed_string(stop_price, price_precision).as_str());
    query.append("&price=");
    query.append(fixed_string(limit_price, price_precision).as_str());
    Ok(OrderPlan { endpoint: Endpoint::for_mode(mode), query })
}

/// The decimal places that a multiple of `unit` needs, ten at most; `otherwise`
/// where the unit is not positive.
pub open spec fn places_of(unit: int, otherwise: nat) -> nat {
    if unit <= 0 {
        otherwise
    } else {
        min_of(plain(unit).1 as int, 10) as nat
    }
}

/// The decimal places of a quantity: those of the step, eight where there is none.
pub fn qty_precision_from_step(step_size: i128) -> (p: u32)
    requires
        bounded(step_size as int),
    ensures
        p == places_of(step_size as int, 8),
        p <= 10,
{
    if step_size <= 0 {
        return 8;
    }
    let scale: u32 = plain_dec(step_size).scale;
    if scale <= 10 {
        scale
    } else {
        10
    }
}

/// The decimal places of a price: those of the tick, two where there is none.
pub fn price_precision_from_tick(tick_size: i128) -> (p: u32)
    requires
        bounded(tick_size as int),
    ensures
        p == places_of(tick_size as int, 2),
        p <= 10,
{
    if tick_size <= 0 {
        return 2;
    }
    let scale: u32 = plain_dec(tick_size).scale;
    if scale <= 10 {
        scale
    } else {
        10
    }
}

/// An order of the practice mode goes to the endpoint that executes nothing, and
/// the two endpoints have different paths.
pub proof fn law_practice_moves_no_money(mode: Mode)
    ensures
        mode == Mode::Practice ==> endpoint_of(mode) == Endpoint::TestOrder,
        endpoint_of(mode) == Endpoint::LiveOrder ==> mode == Mode::Live,
        Endpoint::TestOrder.path_text() != Endpoint::LiveOrder.path_text(),
{
    reveal_strlit("/api/v3/order/test");
    reveal_strlit("/api/v3/order");
    assert("/api/v3/order/test"@.len() != "/api/v3/order"@.len());
}

/// A protecting stop is placed exactly where there is something to protect, both prices are
/// positive and the limit is not above the stop; the first of these that fails is told.
pub proof fn law_stop_order_is_refused_for_cause(qty: int, stop_price: int, limit_price: int)
    ensures
        stop_refusal(qty, stop_price, limit_price) is None <==> qty > 0 && 0 < limit_price
            <= stop_price,
        stop_refusal(qty, stop_price, limit_price) == Some(OrderRefusal::NothingToProtect) <==> qty
            <= 0,
        stop_refusal(qty, stop_price, limit_price) == Some(OrderRefusal::BadPrices) <==> qty > 0 && (
        stop_price <= 0 || limit_price <= 0),
        stop_refusal(qty, stop_price, limit_price) == Some(OrderRefusal::LimitAboveStop) <==> qty > 0
            && 0 < stop_price < limit_price,
{
}

} // verus!
