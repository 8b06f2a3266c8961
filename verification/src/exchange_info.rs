//! The exchange's trading rules.
use crate::binance_orders::{bad_number_text, parse_field, BadNumber};
use crate::fixed::bounded;
use crate::numeral::fixed_value;
use crate::text::same_text;
use vstd::prelude::*;

verus! {

/// What the exchange trades.
#[derive(Debug)]
pub struct ExchangeInfo {
    pub symbols: Vec<SymbolInfo>,
}

/// A symbol and its rules.
#[derive(Debug)]
pub struct SymbolInfo {
    pub symbol: String,
    pub status: String,
    pub base_asset: String,
    pub quote_asset: String,
    pub filters: Vec<Filter>,
}

/// A rule of a symbol, under the exchange's name.
#[allow(non_camel_case_types)]
#[derive(Debug)]
pub enum Filter {
    LOT_SIZE { min_qty: String, max_qty: String, step_size: String },
    PRICE_FILTER { min_price: String, max_price: String, tick_size: String },
    MIN_NOTIONAL { min_notional: String },
    NOTIONAL { min_notional: String, apply_min_to_market: bool },
    OTHER,
}

/// The rules that the bot has to keep.
#[derive(Clone, Copy, Debug, PartialEq, Eq, Structural)]
pub struct SymbolRules {
    pub step_size: i128,
    pub tick_size: i128,
    pub min_notional: i128,
}

/// The rules that hold where the wallet is not watched: steps of 0.00001, ticks of
/// 0.01 and a minimum of 5.
pub open spec fn usual_rules() -> SymbolRules {
    SymbolRules { step_size: 10_000_000, tick_size: 10_000_000_000, min_notional: 5_000_000_000_000 }
}

/// The rules that hold where the wallet is not watched.
pub fn default_rules() -> (r: SymbolRules)
    ensures
        r == usual_rules(),
{
    SymbolRules { step_size: 10_000_000, tick_size: 10_000_000_000, min_notional: 5_000_000_000_000 }
}

/// Why there are no rules.
#[derive(Debug)]
pub enum RulesError {
    /// The symbol is not there, or is not traded.
    NotTrading,
    /// A rule is no number.
    BadRule { error: BadNumber },
    MissingStepSize,
    MissingTickSize,
    MissingMinNotional,
}

impl RulesError {
    /// The error in words, for a symbol.
    pub fn message(&self, symbol: &str) -> (s: String)
        ensures
            s@ == (match *self {
                RulesError::NotTrading => symbol@ + " not found or not trading"@,
                RulesError::BadRule { error } => bad_number_text(error.label@, error.text@),
                RulesError::MissingStepSize => "Missing LOT_SIZE.stepSize"@,
                RulesError::MissingTickSize => "Missing PRICE_FILTER.tickSize"@,
                RulesError::MissingMinNotional => "Missing MIN_NOTIONAL/NOTIONAL.minNotional"@,
            }),
    {
        match self {
            RulesError::NotTrading => {
                let mut s: String = String::from_str(symbol);
                s.append(" not found or not trading");
                s
            },
            RulesError::BadRule { error } => error.message(),
            RulesError::MissingStepSize => String::from_str("Missing LOT_SIZE.stepSize"),
            RulesError::MissingTickSize => String::from_str("Missing PRICE_FILTER.tickSize"),
            RulesError::MissingMinNotional => String::from_str(
                "Missing MIN_NOTIONAL/NOTIONAL.minNotional",
            ),
        }
    }
}

/// The three rules as far as they are known.
pub struct RuleParts {
    pub step: Option<i128>,
    pub tick: Option<i128>,
    pub minimum: Option<i128>,
}

/// Whether a symbol is the one looked for, and traded.
pub open spec fn is_traded(s: SymbolInfo, symbol: Seq<char>) -> bool {
    s.symbol@ == symbol && s.status@ == "TRADING"@
}

/// The number of a rule, in words.
pub open spec fn rule_text(f: Filter) -> Option<Seq<char>> {
    match f {
        Filter::LOT_SIZE { step_size, .. } => Some(step_size@),
        Filter::PRICE_FILTER { tick_size, .. } => Some(tick_size@),
        Filter::MIN_NOTIONAL { min_notional } => Some(min_notional@),
        Filter::NOTIONAL { min_notional, .. } => Some(min_notional@),
        Filter::OTHER => None,
    }
}

/// Whether a rule can be read.
pub open spec fn rule_readable(f: Filter) -> bool {
    rule_text(f) is Some ==> fixed_value(rule_text(f)->0) is Some
}

/// Whether an error names the first rule that cannot be read.
pub open spec fn is_bad_rule(filters: Seq<Filter>, e: BadNumber) -> bool {
    e.label@ == "filter"@ && exists|i: int|
        0 <= i < filters.len() && !rule_readable(#[trigger] filters[i]) && Some(e.text@)
            == rule_text(filters[i]) && forall|k: int|
            0 <= k < i ==> rule_readable(#[trigger] filters[k])
}

/// The rules among the first `n` filters. Of several of a kind, the last one counts.
pub open spec fn rules_of(filters: Seq<Filter>, n: int) -> RuleParts
    decreases n,
{
    if n <= 0 {
        RuleParts { step: None, tick: None, minimum: None }
    } else {
        let p = rules_of(filters, n - 1);
        match filters[n - 1] {
            Filter::LOT_SIZE { step_size, .. } => RuleParts { step: fixed_value(step_size@), ..p },
            Filter::PRICE_FILTER { tick_size, .. } => RuleParts { tick: fixed_value(tick_size@), ..p },
            Filter::MIN_NOTIONAL { min_notional } => RuleParts {
                minimum: fixed_value(min_notional@),
                ..p
            },
            Filter::NOTIONAL { min_notional, .. } => RuleParts {
                minimum: fixed_value(min_notional@),
                ..p
            },
            Filter::OTHER => p,
        }
    }
}

/// Whether every rule of a list can be read.
pub open spec fn all_readable(filters: Seq<Filter>) -> bool {
    forall|i: int| 0 <= i < filters.len() ==> rule_readable(#[trigger] filters[i])
}

/// What the rules of a symbol come to.
pub open spec fn rules_result(filters: Seq<Filter>, r: Result<SymbolRules, RulesError>) -> bool {
    let p = rules_of(filters, filters.len() as int);
    if !all_readable(filters) {
        r is Err && r->Err_0 is BadRule && is_bad_rule(filters, r->Err_0->error)
    } else if p.step is None {
        r is Err && r->Err_0 is MissingStepSize
    } else if p.tick is None {
        r is Err && r->Err_0 is MissingTickSize
    } else if p.minimum is None {
        r is Err && r->Err_0 is MissingMinNotional
    } else {
        r == Ok::<SymbolRules, RulesError>(
            SymbolRules {
                step_size: p.step->0,
                tick_size: p.tick->0,
                min_notional: p.minimum->0,
            },
        )
    }
}

fn read_rule(text: &str) -> (r: Result<i128, RulesError>)
    ensures
        match r {
            Ok(v) => fixed_value(text@) == Some(v) && bounded(v as int),
            Err(e) => fixed_value(text@) is None && e is BadRule && e->error.label@ == "filter"@
                && e->error.text@ == text@,
        },
{
    match parse_field("filter", text) {
        Ok(v) => Ok(v),
        Err(error) => Err(RulesError::BadRule { error }),
    }
}

fn read_rules(filters: &Vec<Filter>) -> (r: Result<SymbolRules, RulesError>)
    ensures
        rules_result(filters@, r),
        r is Ok ==> bounded(r->Ok_0.step_size as int) && bounded(r->Ok_0.tick_size as int)
            && bounded(r->Ok_0.min_notional as int),
{
    let mut p: RuleParts = RuleParts { step: None, tick: None, minimum: None };
    let mut i: usize = 0;
    while i < filters.len()
        invariant
            i <= filters@.len(),
            forall|k: int| 0 <= k < i ==> rule_readable(#[trigger] filters@[k]),
            p == rules_of(filters@, i as int),
            p.step is Some ==> bounded(p.step->0 as int),
            p.tick is Some ==> bounded(p.tick->0 as int),
            p.minimum is Some ==> bounded(p.minimum->0 as int),
        decreases filters@.len() - i,
    {
        let mut bad: Option<RulesError> = None;
        match &filters[i] {
            Filter::LOT_SIZE { step_size, .. } => match read_rule(step_size.as_str()) {
                Ok(v) => p.step = Some(v),
                Err(e) => bad = Some(e),
            },
            Filter::PRICE_FILTER { tick_size, .. } => match read_rule(tick_size.as_str()) {
                Ok(v) => p.tick = Some(v),
                Err(e) => bad = Some(e),
            },
            Filter::MIN_NOTIONAL { min_notional } => match read_rule(min_notional.as_str()) {
                Ok(v) => p.minimum = Some(v),
                Err(e) => bad = Some(e),
            },
            Filter::NOTIONAL { min_notional, .. } => match read_rule(min_notional.as_str()) {
                Ok(v) => p.minimum = Some(v),
                Err(e) => bad = Some(e),
            },
            Filter::OTHER => {},
        }
        if let Some(e) = bad {
            assert(!rule_readable(filters@[i as int]));
            return Err(e);
        }
        i += 1;
    }
    let step_size: i128 = match p.step {
        Some(v) => v,
        None => return Err(RulesError::MissingStepSize),
    };
    let tick_size: i128 = match p.tick {
        Some(v) => v,
        None => return Err(RulesError::MissingTickSize),
    };
    let min_notional: i128 = match p.minimum {
        Some(v) => v,
        None => return Err(RulesError::MissingMinNotional),
    };
    Ok(SymbolRules { step_size, tick_size, min_notional })
}

/// The rules of a symbol: those of its first entry that is traded.
pub fn symbol_rules(info: &ExchangeInfo, symbol: &str) -> (r: Result<SymbolRules, RulesError>)
    ensures
        if exists|i: int| 0 <= i < info.symbols@.len() && is_traded(#[trigger] info.symbols@[i], symbol@) {
            exists|i: int|
                0 <= i < info.symbols@.len() && is_traded(#[trigger] info.symbols@[i], symbol@)
                    && (forall|k: int|
                    0 <= k < i ==> !is_traded(#[trigger] info.symbols@[k], symbol@))
                    && rules_result(info.symbols@[i].filters@, r)
        } else {
            r is Err && r->Err_0 is NotTrading
        },
        r is Ok ==> bounded(r->Ok_0.step_size as int) && bounded(r->Ok_0.tick_size as int)
            && bounded(r->Ok_0.min_notional as int),
{
    let mut i: usize = 0;
    while i < info.symbols.len()
        invariant
            i <= info.symbols@.len(),
            forall|k: int| 0 <= k < i ==> !is_traded(#[trigger] info.symbols@[k], symbol@),
        decreases info.symbols@.len() - i,
    {
        let s: &SymbolInfo = &info.symbols[i];
        if same_text(s.symbol.as_str(), symbol) && same_text(s.status.as_str(), "TRADING") {
            assert(is_traded(info.symbols@[i as int], symbol@));
            return read_rules(&s.filters);
        }
        i += 1;
    }
    Err(RulesError::NotTrading)
}

/// One more filter sets the rule that it is about and leaves the others alone.
pub proof fn law_filter_sets_its_rule(filters: Seq<Filter>, f: Filter)
    ensures
        ({
            let n = filters.len() as int;
            let p = rules_of(filters, n);
            let q = rules_of(filters.push(f), n + 1);
            &&& f is LOT_SIZE ==> q.step == fixed_value(f->step_size@) && q.tick == p.tick
                && q.minimum == p.minimum
            &&& f is PRICE_FILTER ==> q.tick == fixed_value(f->tick_size@) && q.step == p.step
                && q.minimum == p.minimum
            &&& f is MIN_NOTIONAL ==> q.minimum == fixed_value(f->MIN_NOTIONAL_min_notional@)
                && q.step == p.step && q.tick == p.tick
            &&& f is NOTIONAL ==> q.minimum == fixed_value(f->NOTIONAL_min_notional@) && q.step
                == p.step && q.tick == p.tick
            &&& f is OTHER ==> q == p
        }),
        rules_of(Seq::empty(), 0).step is None,
        rules_of(Seq::empty(), 0).tick is None,
        rules_of(Seq::empty(), 0).minimum is None,
{
    lemma_rules_prefix(filters, filters.push(f), filters.len() as int);
}

proof fn lemma_rules_prefix(a: Seq<Filter>, b: Seq<Filter>, n: int)
    requires
        0 <= n <= a.len(),
        n <= b.len(),
        forall|i: int| 0 <= i < n ==> a[i] == #[trigger] b[i],
    ensures
        rules_of(a, n) == rules_of(b, n),
    decreases n,
{
    if n > 0 {
        lemma_rules_prefix(a, b, n - 1);
        assert(a[n - 1] == b[n - 1]);
    }
}

/// The rules of a symbol are complete exactly where every filter can be read and each of the
/// three rules is there.
pub proof fn law_rules_are_complete(filters: Seq<Filter>, r: Result<SymbolRules, RulesError>)
    requires
        rules_result(filters, r),
    ensures
        ({
            let p = rules_of(filters, filters.len() as int);
            &&& r is Ok <==> all_readable(filters) && p.step is Some && p.tick is Some
                && p.minimum is Some
            &&& r is Ok ==> Some(r->Ok_0.step_size) == p.step && Some(r->Ok_0.tick_size) == p.tick
                && Some(r->Ok_0.min_notional) == p.minimum
        }),
{
}

} // verus!
