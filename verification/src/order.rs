//! Orders as the exchange takes them.
use vstd::prelude::*;

verus! {

/// A new order.
#[derive(Debug)]
pub struct NewOrder<'a> {
    pub symbol: &'a str,
    pub side: &'a str,
    pub order_type: &'a str,
    pub quantity: String,
}

/// The query of a new order.
pub open spec fn order_query(
    symbol: Seq<char>,
    side: Seq<char>,
    order_type: Seq<char>,
    quantity: Seq<char>,
) -> Seq<char> {
    "symbol="@ + symbol + "&side="@ + side + "&type="@ + order_type + "&quantity="@ + quantity
}

impl<'a> NewOrder<'a> {
    /// The order as `key=value` pairs in a fixed sequence.
    pub fn to_query_string(&self) -> (s: String)
        ensures
            s@ == order_query(self.symbol@, self.side@, self.order_type@, self.quantity@),
    {
        let mut s: String = String::from_str("symbol=");
        s.append(self.symbol);
        s.append("&side=");
        s.append(self.side);
        s.append("&type=");
        s.append(self.order_type);
        s.append("&quantity=");
        s.append(self.quantity.as_str());
        s
    }
}

} // verus!
