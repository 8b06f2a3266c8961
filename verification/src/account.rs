//! The spot account: its balances, and how its endpoint is asked.
use crate::binance_orders::{parse_field, BadNumber};
use crate::fixed::{bounded, mul_fixed, product, saturate, saturated, LIMIT, ONE};
use crate::numeral::fixed_value;
use crate::text::{chars_of, nat_text, same_text, string_of, u64_string};
use vstd::prelude::*;

verus! {

/// The balance of one asset, as the exchange reports it.
#[derive(Clone, Debug)]
pub struct Balance {
    pub asset: String,
    pub free: String,
    pub locked: String,
}

/// What the account holds of the two assets that the bot trades.
#[derive(Clone, Copy, Debug, PartialEq, Eq, Structural)]
pub struct SpotBalances {
    pub usdt_free: i128,
    pub usdt_locked: i128,
    pub btc_free: i128,
    pub btc_locked: i128,
}

impl SpotBalances {
    /// Every balance is within the range of the arithmetic.
    pub open spec fn ok(self) -> bool {
        bounded(self.usdt_free as int) && bounded(self.usdt_locked as int) && bounded(
            self.btc_free as int,
        ) && bounded(self.btc_locked as int)
    }

    /// All USDT, free and locked. The sum stays within the range of the arithmetic.
    pub fn usdt_total(&self) -> (r: i128)
        requires
            self.ok(),
        ensures
            r == saturated(self.usdt_free + self.usdt_locked),
            bounded(r as int),
    {
        saturate(self.usdt_free + self.usdt_locked)
    }

    /// All BTC, free and locked.
    pub open spec fn all_btc(self) -> int {
        saturated(self.btc_free + self.btc_locked)
    }

    /// All BTC, free and locked. The sum stays within the range of the arithmetic.
    pub fn btc_total(&self) -> (r: i128)
        requires
            self.ok(),
        ensures
            r == self.all_btc(),
            bounded(r as int),
    {
        saturate(self.btc_free + self.btc_locked)
    }

    /// The worth of the account at a price.
    pub open spec fn worth(self, price: int) -> int {
        saturated(
            saturated(self.usdt_free + self.usdt_locked) + product(self.all_btc(), price),
        )
    }

    /// The worth of the account at a price, in USDT. It stays within the range of
    /// the arithmetic.
    pub fn equity(&self, price: i128) -> (r: i128)
        requires
            self.ok(),
            bounded(price as int),
        ensures
            r == self.worth(price as int),
            bounded(r as int),
    {
        saturate(self.usdt_total() + mul_fixed(self.btc_total(), price))
    }
}

/// Whether the amounts of a balance that the bot trades are numbers.
pub open spec fn readable(b: Balance) -> bool {
    (b.asset@ == "USDT"@ || b.asset@ == "BTC"@) ==> fixed_value(b.free@) is Some && fixed_value(
        b.locked@,
    ) is Some
}

/// The field of a balance that is no number: what is free comes first.
pub open spec fn is_bad_field(b: Balance, e: BadNumber) -> bool {
    if fixed_value(b.free@) is None {
        e.label@ == "free"@ && e.text@ == b.free@
    } else {
        e.label@ == "locked"@ && e.text@ == b.locked@
    }
}

/// The balances after the first `n` entries. The last entry of an asset counts.
pub open spec fn balances_of(list: Seq<Balance>, n: int) -> SpotBalances
    decreases n,
{
    if n <= 0 {
        SpotBalances { usdt_free: 0, usdt_locked: 0, btc_free: 0, btc_locked: 0 }
    } else {
        let before = balances_of(list, n - 1);
        let b = list[n - 1];
        if b.asset@ == "USDT"@ {
            SpotBalances {
                usdt_free: fixed_value(b.free@)->0,
                usdt_locked: fixed_value(b.locked@)->0,
                ..before
            }
        } else if b.asset@ == "BTC"@ {
            SpotBalances {
                btc_free: fixed_value(b.free@)->0,
                btc_locked: fixed_value(b.locked@)->0,
                ..before
            }
        } else {
            before
        }
    }
}

/// Reads the balances of the two assets that the bot trades. An asset that is not
/// listed has none. It fails where one of their amounts is no number.
pub fn read_balances(list: &Vec<Balance>) -> (r: Result<SpotBalances, BadNumber>)
    ensures
        match r {
            Ok(s) => {
                &&& forall|i: int| 0 <= i < list@.len() ==> readable(#[trigger] list@[i])
                &&& s == balances_of(list@, list@.len() as int)
                &&& s.ok()
            },
            Err(e) => exists|i: int|
                0 <= i < list@.len() && !readable(#[trigger] list@[i]) && is_bad_field(list@[i], e)
                    && forall|k: int| 0 <= k < i ==> readable(#[trigger] list@[k]),
        },
{
    let mut s: SpotBalances = SpotBalances {
        usdt_free: 0,
        usdt_locked: 0,
        btc_free: 0,
        btc_locked: 0,
    };
    let mut i: usize = 0;
    proof {
        reveal_strlit("USDT");
        reveal_strlit("BTC");
        assert("USDT"@.len() != "BTC"@.len());
    }
    while i < list.len()
        invariant
            i <= list@.len(),
            forall|k: int| 0 <= k < i ==> readable(#[trigger] list@[k]),
            s == balances_of(list@, i as int),
            s.ok(),
            "USDT"@ != "BTC"@,
        decreases list@.len() - i,
    {
        let b: &Balance = &list[i];
        let usdt: bool = same_text(b.asset.as_str(), "USDT");
        let btc: bool = same_text(b.asset.as_str(), "BTC");
        if usdt || btc {
            let free: i128 = match parse_field("free", b.free.as_str()) {
                Ok(v) => v,
                Err(e) => {
                    assert(!readable(list@[i as int]));
                    return Err(e);
                },
            };
            let locked: i128 = match parse_field("locked", b.locked.as_str()) {
                Ok(v) => v,
                Err(e) => {
                    assert(!readable(list@[i as int]));
                    return Err(e);
                },
            };
            if usdt {
                s.usdt_free = free;
                s.usdt_locked = locked;
            } else {
                s.btc_free = free;
                s.btc_locked = locked;
            }
        }
        assert(readable(list@[i as int]));
        i += 1;
    }
    Ok(s)
}

/// The exchange refused a request.
#[derive(Clone, Debug)]
pub struct BinanceApiError {
    pub status: u16,
    pub code: Option<i64>,
    pub msg: Option<String>,
    pub body_trunc: String,
}

/// The first `most` characters of a text.
pub open spec fn cut(text: Seq<char>, most: int) -> Seq<char> {
    if text.len() <= most {
        text
    } else {
        text.take(most)
    }
}

/// The first `most` characters of a text.
pub fn truncate_chars(text: &str, most: usize) -> (s: String)
    ensures
        s@ == cut(text@, most as int),
{
    let v: Vec<char> = chars_of(text);
    let n: usize = if v.len() <= most {
        v.len()
    } else {
        most
    };
    let s: String = string_of(&v, 0, n);
    assert(s@ =~= cut(text@, most as int));
    s
}

/// The query of an account request, before it is signed.
pub fn account_query(timestamp_ms: u64) -> (s: String)
    ensures
        s@ == "recvWindow=5000&timestamp="@ + nat_text(timestamp_ms as nat),
{
    let mut s: String = String::from_str("recvWindow=5000&timestamp=");
    s.append(u64_string(timestamp_ms).as_str());
    s
}

/// What to do after an account request.
#[derive(Clone, Copy, Debug, PartialEq, Eq, Structural)]
pub enum AccountStep {
    /// Read the balances from the reply.
    Read,
    /// Ask the exchange for its time, and repeat the request once.
    Resync,
    /// Give up with the exchange's error.
    Fail,
}

/// Whether an HTTP status reports success.
pub open spec fn is_success(status: u16) -> bool {
    200 <= status < 300
}

/// What to do after an account request: a success is read; a timestamp that the
/// exchange refuses is corrected once; anything else fails.
pub fn after_account_reply(status: u16, code: Option<i64>, repeated: bool) -> (r: AccountStep)
    ensures
        r == (if is_success(status) {
            AccountStep::Read
        } else if code == Some(-1021i64) && !repeated {
            AccountStep::Resync
        } else {
            AccountStep::Fail
        }),
        repeated ==> r != AccountStep::Resync,
        r == AccountStep::Read <==> status >= 200 && status <= 299,
        r == AccountStep::Resync ==> code == Some(-1021i64),
{
    if 200 <= status && status < 300 {
        return AccountStep::Read;
    }
    match code {
        Some(c) => if c == -1021 && !repeated {
            AccountStep::Resync
        } else {
            AccountStep::Fail
        },
        None => AccountStep::Fail,
    }
}

/// The error that a refused request gives: the body is cut after 500 characters.
pub fn api_error(status: u16, code: Option<i64>, msg: Option<String>, body: &str) -> (e: BinanceApiError)
    ensures
        e.status == status,
        e.code == code,
        e.msg == msg,
        e.body_trunc@ == cut(body@, 500),
{
    BinanceApiError { status, code, msg, body_trunc: truncate_chars(body, 500) }
}

/// The wallet is worth its money and its coins at the price, each free or locked.
pub proof fn law_wallet_is_worth_its_parts(b: SpotBalances, price: int)
    requires
        b.ok(),
        b.btc_free >= 0 && b.btc_locked >= 0 && b.usdt_free >= 0 && b.usdt_locked >= 0,
        price >= 0,
        b.btc_free + b.btc_locked <= LIMIT,
        b.worth(price) < LIMIT,
    ensures
        b.all_btc() == b.btc_free + b.btc_locked,
        -ONE <= 2 * ((b.worth(price) - b.usdt_free - b.usdt_locked) * ONE - (b.btc_free
            + b.btc_locked) * price) <= ONE,
{
    let coins = b.btc_free + b.btc_locked;
    crate::fixed::lemma_round_div_error(coins * price, ONE as int);
    crate::fixed::lemma_round_div_exact(0, ONE as int);
    assert(coins * price >= 0) by (nonlinear_arith)
        requires
            coins >= 0,
            price >= 0,
    ;
    crate::fixed::lemma_round_div_monotone(0, coins * price, ONE as int);
}

/// One more entry sets the balances of its asset and leaves the others alone; without entries
/// there is nothing.
pub proof fn law_entry_sets_its_asset(list: Seq<Balance>, b: Balance)
    ensures
        ({
            let n = list.len() as int;
            let before = balances_of(list, n);
            let after = balances_of(list.push(b), n + 1);
            &&& b.asset@ == "USDT"@ ==> Some(after.usdt_free) == Some(fixed_value(b.free@)->0)
                && after.usdt_locked == fixed_value(b.locked@)->0
            &&& b.asset@ != "USDT"@ ==> after.usdt_free == before.usdt_free && after.usdt_locked
                == before.usdt_locked
            &&& b.asset@ == "BTC"@ && b.asset@ != "USDT"@ ==> after.btc_free == fixed_value(
                b.free@,
            )->0 && after.btc_locked == fixed_value(b.locked@)->0
            &&& b.asset@ != "BTC"@ || b.asset@ == "USDT"@ ==> after.btc_free == before.btc_free
                && after.btc_locked == before.btc_locked
        }),
        balances_of(Seq::empty(), 0) == (SpotBalances {
            usdt_free: 0,
            usdt_locked: 0,
            btc_free: 0,
            btc_locked: 0,
        }),
{
    let n = list.len() as int;
    lemma_balances_prefix(list, list.push(b), n);
}

proof fn lemma_balances_prefix(a: Seq<Balance>, b: Seq<Balance>, n: int)
    requires
        0 <= n <= a.len(),
        n <= b.len(),
        forall|i: int| 0 <= i < n ==> a[i] == #[trigger] b[i],
    ensures
        balances_of(a, n) == balances_of(b, n),
    decreases n,
{
    if n > 0 {
        lemma_balances_prefix(a, b, n - 1);
        assert(a[n - 1] == b[n - 1]);
    }
}

} // verus!
