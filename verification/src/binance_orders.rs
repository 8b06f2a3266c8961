//! Orders at the exchange: their identifiers and queries, what the exchange
//! reports of them, and how an uncertain placement is settled.
use crate::fixed::{
    bounded, div_fixed, mul_fixed, product, quotient, saturate, saturated, LIMIT, ONE,
};
use crate::numeral::{
    all_digits, digits_value, fixed_value, is_digit, parse_fixed,
};
use crate::text::{digit_char, nat_text, same_text, u64_string};
use vstd::prelude::*;

verus! {

/// The identifier that the bot gives to an order.
pub open spec fn client_id_text(now_ms: u64, seq: u64) -> Seq<char> {
    "bot"@ + nat_text(now_ms as nat) + "-"@ + nat_text(seq as nat)
}

/// A fresh identifier for an order, so that an order whose placement is uncertain
/// can be found again. The counter goes on by one.
pub fn generate_client_order_id(seq: &mut u64, now_ms: u64) -> (s: String)
    ensures
        s@ == client_id_text(now_ms, *old(seq)),
        *final(seq) == (if *old(seq) == u64::MAX {
            0
        } else {
            (*old(seq) + 1) as u64
        }),
{
    let mut s: String = String::from_str("bot");
    s.append(u64_string(now_ms).as_str());
    s.append("-");
    s.append(u64_string(*seq).as_str());
    *seq = if *seq == u64::MAX {
        0
    } else {
        *seq + 1
    };
    s
}

/// The numeral of a number is made of digits and stands for the number.
pub proof fn lemma_nat_text(n: nat)
    ensures
        all_digits(nat_text(n)),
        nat_text(n).len() > 0,
        digits_value(nat_text(n)) == n,
    decreases n,
{
    if n < 10 {
        let s = nat_text(n);
        assert(s =~= seq![digit_char(n as int)]);
        assert(s.drop_last() =~= Seq::<char>::empty());
        assert(digits_value(Seq::<char>::empty()) == 0);
    } else {
        lemma_nat_text(n / 10);
        let head = nat_text(n / 10);
        let last = digit_char((n % 10) as int);
        assert(head.push(last).drop_last() =~= head);
        assert(nat_text(n) == head.push(last));
        assert forall|i: int| 0 <= i < nat_text(n).len() implies is_digit(#[trigger] nat_text(n)[i]) by {
            if i < head.len() {
                assert(is_digit(head[i]));
            }
        }
    }
}

/// Two numerals with a hyphen between them are told apart.
proof fn lemma_pair_text(a1: nat, b1: nat, a2: nat, b2: nat)
    requires
        nat_text(a1) + "-"@ + nat_text(b1) == nat_text(a2) + "-"@ + nat_text(b2),
    ensures
        a1 == a2,
        b1 == b2,
{
    reveal_strlit("-");
    lemma_nat_text(a1);
    lemma_nat_text(a2);
    lemma_nat_text(b1);
    lemma_nat_text(b2);
    let s1 = nat_text(a1) + "-"@ + nat_text(b1);
    let s2 = nat_text(a2) + "-"@ + nat_text(b2);
    let n1 = nat_text(a1).len() as int;
    let n2 = nat_text(a2).len() as int;
    assert(s1[n1] == '-');
    assert(s2[n2] == '-');
    if n1 < n2 {
        assert(s2[n1] == nat_text(a2)[n1]);
        assert(is_digit(nat_text(a2)[n1]));
    } else if n2 < n1 {
        assert(s1[n2] == nat_text(a1)[n2]);
        assert(is_digit(nat_text(a1)[n2]));
    }
    assert(n1 == n2);
    assert(s1.take(n1) =~= nat_text(a1));
    assert(s2.take(n2) =~= nat_text(a2));
    assert(s1.skip(n1 + 1) =~= nat_text(b1));
    assert(s2.skip(n2 + 1) =~= nat_text(b2));
}

/// No two orders share an identifier unless both the time and the count repeat.
pub proof fn law_client_ids_are_unique(now1: u64, seq1: u64, now2: u64, seq2: u64)
    requires
        client_id_text(now1, seq1) == client_id_text(now2, seq2),
    ensures
        now1 == now2,
        seq1 == seq2,
{
    reveal_strlit("bot");
    let s1 = client_id_text(now1, seq1);
    let s2 = client_id_text(now2, seq2);
    assert(s1.skip(3) =~= nat_text(now1 as nat) + "-"@ + nat_text(seq1 as nat));
    assert(s2.skip(3) =~= nat_text(now2 as nat) + "-"@ + nat_text(seq2 as nat));
    lemma_pair_text(now1 as nat, seq1 as nat, now2 as nat, seq2 as nat);
}

/// A placement with the bot's identifier.
pub open spec fn placement_text(query: Seq<char>, client_id: Seq<char>) -> Seq<char> {
    query + "&newClientOrderId="@ + client_id
}

/// Adds the bot's identifier to the query of an order.
pub fn placement_query(query: &str, client_order_id: &str) -> (s: String)
    ensures
        s@ == placement_text(query@, client_order_id@),
{
    let mut s: String = String::from_str(query);
    s.append("&newClientOrderId=");
    s.append(client_order_id);
    s
}

/// A query for everything of a symbol.
pub open spec fn symbol_text(symbol: Seq<char>) -> Seq<char> {
    "symbol="@ + symbol
}

/// A query for everything of a symbol.
pub fn symbol_query(symbol: &str) -> (s: String)
    ensures
        s@ == symbol_text(symbol@),
{
    let mut s: String = String::from_str("symbol=");
    s.append(symbol);
    s
}

/// A query for one order by the exchange's identifier.
pub fn order_id_query(symbol: &str, order_id: u64) -> (s: String)
    ensures
        s@ == symbol_text(symbol@) + "&orderId="@ + nat_text(order_id as nat),
{
    let mut s: String = symbol_query(symbol);
    s.append("&orderId=");
    s.append(u64_string(order_id).as_str());
    s
}

/// A query for one order by the bot's identifier.
pub fn client_id_query(symbol: &str, client_order_id: &str) -> (s: String)
    ensures
        s@ == symbol_text(symbol@) + "&origClientOrderId="@ + client_order_id@,
{
    let mut s: String = symbol_query(symbol);
    s.append("&origClientOrderId=");
    s.append(client_order_id);
    s
}

/// The exchange has taken an order.
#[derive(Debug)]
pub struct OrderAck {
    pub symbol: String,
    pub order_id: u64,
    pub status: Option<String>,
}

/// What the exchange reports of an order.
#[derive(Clone, Debug)]
pub struct OrderStatus {
    pub symbol: String,
    pub order_id: u64,
    pub status: String,
    pub executed_qty: String,
    pub cummulative_quote_qty: String,
    pub price: Option<String>,
    pub stop_price: Option<String>,
    pub side: Option<String>,
    pub order_type: Option<String>,
}

/// An order that is still open.
#[derive(Clone, Debug)]
pub struct OpenOrder {
    pub symbol: Option<String>,
    pub order_id: u64,
    pub status: Option<String>,
    pub order_type: Option<String>,
    pub side: Option<String>,
    pub stop_price: Option<String>,
    pub orig_qty: Option<String>,
}

/// One fill of an order.
#[derive(Clone, Debug)]
pub struct MyTrade {
    pub order_id: u64,
    pub commission: String,
    pub commission_asset: String,
}

/// What came back of a placement.
pub enum PlacementReply {
    /// The exchange took the order.
    Accepted { ack: OrderAck },
    /// The exchange reported success, but its reply could not be read.
    Unreadable { error: String },
    /// The exchange refused the order, or no reply came. It is not known whether
    /// the order exists.
    Uncertain { error: String },
}

/// An order was not placed.
#[derive(Debug)]
pub struct PlacementFailure {
    pub error: String,
}

/// Whether an order has to be looked up by the bot's identifier before its
/// placement counts as failed.
pub fn must_look_up(reply: &PlacementReply) -> (r: bool)
    ensures
        r == (reply is Uncertain),
{
    match reply {
        PlacementReply::Uncertain { .. } => true,
        _ => false,
    }
}

/// What a placement comes to: an uncertain one succeeded if the order was found,
/// and otherwise failed with its own error.
pub open spec fn settled(
    reply: PlacementReply,
    found: Option<OrderStatus>,
    r: Result<OrderAck, PlacementFailure>,
) -> bool {
    match reply {
        PlacementReply::Accepted { ack } => r == Ok::<OrderAck, PlacementFailure>(ack),
        PlacementReply::Unreadable { error } => r == Err::<OrderAck, PlacementFailure>(
            PlacementFailure { error },
        ),
        PlacementReply::Uncertain { error } => match found {
            Some(o) => r == Ok::<OrderAck, PlacementFailure>(
                OrderAck { symbol: o.symbol, order_id: o.order_id, status: Some(o.status) },
            ),
            None => r == Err::<OrderAck, PlacementFailure>(PlacementFailure { error }),
        },
    }
}

/// Settles a placement. `found` is what the lookup by the bot's identifier gave,
/// where there was one.
pub fn settle_placement(reply: PlacementReply, found: Option<OrderStatus>) -> (r: Result<
    OrderAck,
    PlacementFailure,
>)
    ensures
        settled(reply, found, r),
{
    match reply {
        PlacementReply::Accepted { ack } => Ok(ack),
        PlacementReply::Unreadable { error } => Err(PlacementFailure { error }),
        PlacementReply::Uncertain { error } => match found {
            Some(o) => Ok(
                OrderAck { symbol: o.symbol, order_id: o.order_id, status: Some(o.status) },
            ),
            None => Err(PlacementFailure { error }),
        },
    }
}

/// An order that is on the exchange is never reported as failed after an uncertain
/// placement, and one that is not there is never reported as placed.
pub proof fn law_uncertain_placement_is_reconciled(
    error: String,
    found: Option<OrderStatus>,
    r: Result<OrderAck, PlacementFailure>,
)
    requires
        settled(PlacementReply::Uncertain { error }, found, r),
    ensures
        r is Ok <==> found is Some,
        found is Some ==> r->Ok_0.order_id == found->0.order_id,
        found is None ==> r->Err_0.error == error,
{
}

/// A field that is no number.
#[derive(Debug)]
pub struct BadNumber {
    pub label: &'static str,
    pub text: String,
}

/// The text of a [`BadNumber`].
pub open spec fn bad_number_text(label: Seq<char>, text: Seq<char>) -> Seq<char> {
    "Bad number for "@ + label + ": "@ + text
}

impl BadNumber {
    /// The message of the error.
    pub fn message(&self) -> (s: String)
        ensures
            s@ == bad_number_text(self.label@, self.text@),
    {
        let mut s: String = String::from_str("Bad number for ");
        s.append(self.label);
        s.append(": ");
        s.append(self.text.as_str());
        s
    }
}

/// Reads a numeric field.
pub fn parse_field(label: &'static str, text: &str) -> (r: Result<i128, BadNumber>)
    ensures
        match r {
            Ok(v) => fixed_value(text@) == Some(v) && bounded(v as int),
            Err(e) => fixed_value(text@) is None && e.label == label && e.text@ == text@,
        },
{
    match parse_fixed(text) {
        Some(v) => Ok(v),
        None => Err(BadNumber { label, text: String::from_str(text) }),
    }
}

/// The average price of what was executed: the value over the quantity.
pub open spec fn average_price(executed: int, quote: int) -> Option<i128> {
    if executed <= 0 || quote <= 0 {
        None
    } else {
        Some(saturated(quotient(quote, executed)) as i128)
    }
}

/// The average price at which an order was executed; none while nothing was.
pub fn avg_price_from_order_status(st: &OrderStatus) -> (r: Result<Option<i128>, BadNumber>)
    ensures
        match r {
            Ok(p) => {
                &&& fixed_value(st.executed_qty@) is Some
                &&& (fixed_value(st.executed_qty@)->0 > 0 ==> fixed_value(
                    st.cummulative_quote_qty@,
                ) is Some)
                &&& p == (if fixed_value(st.executed_qty@)->0 <= 0 {
                    None
                } else {
                    average_price(
                        fixed_value(st.executed_qty@)->0 as int,
                        fixed_value(st.cummulative_quote_qty@)->0 as int,
                    )
                })
                &&& p is Some ==> bounded(p->0 as int)
            },
            Err(e) => if fixed_value(st.executed_qty@) is None {
                e.label@ == "executedQty"@ && e.text@ == st.executed_qty@
            } else {
                fixed_value(st.executed_qty@)->0 > 0 && fixed_value(st.cummulative_quote_qty@)
                    is None && e.label@ == "cummulativeQuoteQty"@ && e.text@
                    == st.cummulative_quote_qty@
            },
        },
{
    let executed: i128 = match parse_field("executedQty", st.executed_qty.as_str()) {
        Ok(v) => v,
        Err(e) => return Err(e),
    };
    if executed <= 0 {
        return Ok(None);
    }
    let quote: i128 = match parse_field(
        "cummulativeQuoteQty",
        st.cummulative_quote_qty.as_str(),
    ) {
        Ok(v) => v,
        Err(e) => return Err(e),
    };
    if quote <= 0 {
        return Ok(None);
    }
    Ok(Some(saturate(div_fixed(quote, executed))))
}

/// What one fill cost in USDT: a fee in BTC is converted at the price, and a fee
/// in anything else is left out. `None` where the amount is no number.
pub open spec fn fill_cost(t: MyTrade, price: int) -> Option<int> {
    match fixed_value(t.commission@) {
        Some(c) => Some(
            if t.commission_asset@ == "USDT"@ {
                c as int
            } else if t.commission_asset@ == "BTC"@ {
                product(c as int, price)
            } else {
                0
            },
        ),
        None => None,
    }
}

/// The fees of the first `n` fills; `None` where one of the amounts is no number.
pub open spec fn fees_of(trades: Seq<MyTrade>, price: int, n: int) -> Option<int>
    decreases n,
{
    if n <= 0 {
        Some(0)
    } else {
        match fees_of(trades, price, n - 1) {
            Some(sum) => match fill_cost(trades[n - 1], price) {
                Some(c) => Some(saturated(sum + c)),
                None => None,
            },
            None => None,
        }
    }
}

/// Once an amount is no number, neither is the sum of more fills.
proof fn lemma_fees_stay_bad(trades: Seq<MyTrade>, price: int, k: int, n: int)
    requires
        fees_of(trades, price, k) is None,
        0 <= k <= n,
    ensures
        fees_of(trades, price, n) is None,
    decreases n - k,
{
    if k < n {
        lemma_fees_stay_bad(trades, price, k, n - 1);
    }
}

/// Whether an error names the first fee that is no number.
pub open spec fn is_bad_fee(trades: Seq<MyTrade>, e: BadNumber) -> bool {
    e.label@ == "commission"@ && exists|i: int|
        0 <= i < trades.len() && e.text@ == (#[trigger] trades[i]).commission@ && fixed_value(
            trades[i].commission@,
        ) is None && forall|k: int|
            0 <= k < i ==> fixed_value((#[trigger] trades[k]).commission@) is Some
}

/// The fees of an order in USDT. The sum stays within the range of the arithmetic.
pub fn fee_usdt_from_trades(trades: &Vec<MyTrade>, price_usdt: i128) -> (r: Result<i128, BadNumber>)
    requires
        bounded(price_usdt as int),
    ensures
        match r {
            Ok(f) => fees_of(trades@, price_usdt as int, trades@.len() as int) == Some(f as int)
                && bounded(f as int),
            Err(e) => fees_of(trades@, price_usdt as int, trades@.len() as int) is None
                && is_bad_fee(trades@, e),
        },
{
    let mut fee: i128 = 0;
    let mut i: usize = 0;
    while i < trades.len()
        invariant
            i <= trades@.len(),
            bounded(price_usdt as int),
            bounded(fee as int),
            fees_of(trades@, price_usdt as int, i as int) == Some(fee as int),
            forall|k: int| 0 <= k < i ==> fixed_value((#[trigger] trades@[k]).commission@) is Some,
        decreases trades@.len() - i,
    {
        let t: &MyTrade = &trades[i];
        let c: i128 = match parse_field("commission", t.commission.as_str()) {
            Ok(c) => c,
            Err(e) => {
                proof {
                    lemma_fees_stay_bad(
                        trades@,
                        price_usdt as int,
                        i + 1,
                        trades@.len() as int,
                    );
                }
                return Err(e);
            },
        };
        let cost: i128 = if same_text(t.commission_asset.as_str(), "USDT") {
            c
        } else if same_text(t.commission_asset.as_str(), "BTC") {
            mul_fixed(c, price_usdt)
        } else {
            0
        };
        fee = saturate(fee + cost);
        i += 1;
    }
    Ok(fee)
}

/// Where an order stands.
#[derive(Clone, Copy, Debug, PartialEq, Eq, Structural)]
pub enum OrderState {
    /// Everything was executed.
    Filled,
    /// It was canceled, expired or rejected.
    Dead,
    /// Anything else: it may still be executed.
    Working,
}

/// Where an order stands, from the status that the exchange reports.
pub open spec fn order_state(status: Seq<char>) -> OrderState {
    if status == "FILLED"@ {
        OrderState::Filled
    } else if status == "CANCELED"@ || status == "EXPIRED"@ || status == "REJECTED"@ {
        OrderState::Dead
    } else {
        OrderState::Working
    }
}

/// Reads the status that the exchange reports.
pub fn read_order_state(status: &str) -> (r: OrderState)
    ensures
        r == order_state(status@),
{
    if same_text(status, "FILLED") {
        OrderState::Filled
    } else if same_text(status, "CANCELED") || same_text(status, "EXPIRED") || same_text(
        status,
        "REJECTED",
    ) {
        OrderState::Dead
    } else {
        OrderState::Working
    }
}

/// Whether an optional text is the given one.
pub open spec fn is_text(t: Option<String>, s: Seq<char>) -> bool {
    t is Some && t->0@ == s
}

fn option_is(t: &Option<String>, s: &str) -> (r: bool)
    ensures
        r == is_text(*t, s@),
{
    match t {
        Some(x) => same_text(x.as_str(), s),
        None => false,
    }
}

/// Whether an open order is a protective stop that still works.
pub open spec fn is_working_stop(o: OpenOrder) -> bool {
    &&& is_text(o.side, "SELL"@)
    &&& is_text(o.order_type, "STOP_LOSS_LIMIT"@) || is_text(o.order_type, "STOP_LOSS"@)
    &&& !(is_text(o.status, "FILLED"@) || is_text(o.status, "CANCELED"@) || is_text(
        o.status,
        "EXPIRED"@,
    ) || is_text(o.status, "REJECTED"@))
}

fn working_stop(o: &OpenOrder) -> (r: bool)
    ensures
        r == is_working_stop(*o),
{
    option_is(&o.side, "SELL") && (option_is(&o.order_type, "STOP_LOSS_LIMIT") || option_is(
        &o.order_type,
        "STOP_LOSS",
    )) && !(option_is(&o.status, "FILLED") || option_is(&o.status, "CANCELED") || option_is(
        &o.status,
        "EXPIRED",
    ) || option_is(&o.status, "REJECTED"))
}

/// Whether the order at `i` is the working stop with the largest identifier, and
/// the first of those.
pub open spec fn is_latest_stop(orders: Seq<OpenOrder>, i: int) -> bool {
    &&& 0 <= i < orders.len()
    &&& is_working_stop(orders[i])
    &&& forall|j: int|
        0 <= j < orders.len() && is_working_stop(#[trigger] orders[j]) ==> orders[j].order_id
            <= orders[i].order_id && (j < i ==> orders[j].order_id < orders[i].order_id)
}

/// The working stop with the largest identifier.
pub fn latest_stop(orders: &Vec<OpenOrder>) -> (r: Option<usize>)
    ensures
        match r {
            Some(i) => is_latest_stop(orders@, i as int),
            None => forall|j: int|
                0 <= j < orders@.len() ==> !is_working_stop(#[trigger] orders@[j]),
        },
{
    let mut best: Option<usize> = None;
    let mut i: usize = 0;
    while i < orders.len()
        invariant
            i <= orders@.len(),
            match best {
                Some(b) => b < i && is_working_stop(orders@[b as int]) && forall|j: int|
                    0 <= j < i && is_working_stop(#[trigger] orders@[j]) ==> orders@[j].order_id
                        <= orders@[b as int].order_id && (j < b ==> orders@[j].order_id
                        < orders@[b as int].order_id),
                None => forall|j: int| 0 <= j < i ==> !is_working_stop(#[trigger] orders@[j]),
            },
        decreases orders@.len() - i,
    {
        if working_stop(&orders[i]) {
            match best {
                None => {
                    best = Some(i);
                },
                Some(b) => {
                    if orders[i].order_id > orders[b].order_id {
                        best = Some(i);
                    }
                },
            }
        }
        i += 1;
    }
    best
}

/// The average price of a fill is what was paid over what was bought, to half a step.
pub proof fn law_average_price_is_paid_over_bought(executed: int, quote: int)
    ensures
        average_price(executed, quote) is Some <==> executed > 0 && quote > 0,
        executed > 0 && quote > 0 && average_price(executed, quote)->0 < LIMIT ==> {
            let p = average_price(executed, quote)->0;
            -executed <= 2 * (p * executed - quote * ONE) <= executed
        },
{
    if executed > 0 && quote > 0 {
        crate::fixed::lemma_round_div_error(quote * ONE, executed);
        crate::fixed::lemma_round_div_exact(0, executed);
        crate::fixed::lemma_round_div_monotone(0, quote * ONE, executed);
    }
}

/// One more fill adds its commission: money as it is, coins at the price to half a step,
/// anything else not at all.
pub proof fn law_commissions_add_up(trades: Seq<MyTrade>, price: int, t: MyTrade)
    requires
        fees_of(trades, price, trades.len() as int) is Some,
        fixed_value(t.commission@) is Some,
        ({
            let sum = fees_of(trades, price, trades.len() as int)->0;
            let c = fixed_value(t.commission@)->0;
            bounded(sum + c) && bounded(sum + product(c as int, price)) && bounded(sum)
        }),
    ensures
        ({
            let n = trades.len() as int;
            let sum = fees_of(trades, price, n)->0;
            let more = fees_of(trades.push(t), price, n + 1);
            let c = fixed_value(t.commission@)->0;
            &&& more is Some
            &&& t.commission_asset@ == "USDT"@ ==> more->0 == sum + c
            &&& t.commission_asset@ == "BTC"@ && t.commission_asset@ != "USDT"@ ==> -ONE <= 2 * ((
            more->0 - sum) * ONE - c * price) <= ONE
            &&& t.commission_asset@ != "BTC"@ && t.commission_asset@ != "USDT"@ ==> more->0 == sum
        }),
        fees_of(Seq::empty(), price, 0) == Some(0int),
{
    let n = trades.len() as int;
    lemma_fees_prefix(trades, trades.push(t), price, n);
    let c = fixed_value(t.commission@)->0;
    crate::fixed::lemma_round_div_error(c * price, ONE as int);
}

proof fn lemma_fees_prefix(a: Seq<MyTrade>, b: Seq<MyTrade>, price: int, n: int)
    requires
        0 <= n <= a.len(),
        n <= b.len(),
        forall|i: int| 0 <= i < n ==> a[i] == #[trigger] b[i],
    ensures
        fees_of(a, price, n) == fees_of(b, price, n),
    decreases n,
{
    if n > 0 {
        lemma_fees_prefix(a, b, price, n - 1);
        assert(a[n - 1] == b[n - 1]);
    }
}

/// An order is filled or dead by its status alone; any other status is still working.
pub proof fn law_statuses_of_orders(status: Seq<char>)
    ensures
        order_state("FILLED"@) == OrderState::Filled,
        order_state(status) == OrderState::Filled ==> status == "FILLED"@,
        order_state(status) == OrderState::Dead ==> status == "CANCELED"@ || status == "EXPIRED"@
            || status == "REJECTED"@,
        status != "FILLED"@ && status != "CANCELED"@ && status != "EXPIRED"@ && status
            != "REJECTED"@ ==> order_state(status) == OrderState::Working,
        status != "FILLED"@ && (status == "CANCELED"@ || status == "EXPIRED"@ || status
            == "REJECTED"@) ==> order_state(status) == OrderState::Dead,
{
}

/// The latest stop is the only one of its kind: a selling stop order that works, with the
/// greatest number of all that do.
pub proof fn law_latest_stop_is_the_newest(orders: Seq<OpenOrder>, i: int, j: int)
    requires
        is_latest_stop(orders, i),
    ensures
        is_latest_stop(orders, j) ==> i == j,
        0 <= j < orders.len() && is_working_stop(orders[j]) ==> orders[j].order_id
            <= orders[i].order_id,
        is_text(orders[i].side, "SELL"@),
        !is_text(orders[i].status, "FILLED"@),
{
    if 0 <= j < orders.len() && is_working_stop(orders[j]) {
        assert(orders[j].order_id <= orders[i].order_id);
    }
    if is_latest_stop(orders, j) && i != j {
        assert(is_working_stop(orders[i]) && is_working_stop(orders[j]));
    }
}

} // verus!
