//! Records of trades.
use crate::features::Features;
use crate::fixed::{bounded, mul_bounded, saturate, saturated, times};
use crate::regime::{Regime, RegimeResult};
use crate::text::{is_blank, nat_text, trim_text, u64_string};
use vstd::prelude::*;

verus! {

/// The features behind a decision.
#[derive(Clone, Copy, Debug, PartialEq, Eq, Structural)]
pub struct FeatureSnapshot {
    pub ema20_5m: i128,
    pub ema50_5m: i128,
    pub ema20_1h: i128,
    pub ema50_1h: i128,
    pub ema200_1h: i128,
    pub atr14_5m: i128,
    pub atr_ratio_5m: i128,
    pub bb_mid20_5m: i128,
    pub bb_width_5m: i128,
    pub rsi14_5m: i128,
    pub rsi14_1m: i128,
    pub volume_z: i128,
    pub rv_short: i128,
    pub rv_long: i128,
    pub velocity_1m: i128,
    pub velocity_5m: i128,
    pub trend_strength: i128,
    pub vol_ratio: i128,
    pub htf_bullish: bool,
    pub bearish_bias: bool,
    pub vol_squeeze: bool,
}

impl FeatureSnapshot {
    /// The averages of the long run are within the range of the arithmetic.
    pub open spec fn ok(self) -> bool {
        bounded(self.ema20_1h as int) && bounded(self.ema50_1h as int)
    }

    /// The snapshot of features and of what the regime detector made of them.
    pub fn from_features_and_regime(f: &Features, r: &RegimeResult) -> (s: FeatureSnapshot)
        ensures
            s == (FeatureSnapshot {
                ema20_5m: f.ema20_5m,
                ema50_5m: f.ema50_5m,
                ema20_1h: f.ema20_1h,
                ema50_1h: f.ema50_1h,
                ema200_1h: f.ema200_1h,
                atr14_5m: f.atr14_5m,
                atr_ratio_5m: f.atr_ratio_5m,
                bb_mid20_5m: f.bb_mid20_5m,
                bb_width_5m: f.bb_width_5m,
                rsi14_5m: f.rsi14_5m,
                rsi14_1m: f.rsi14_1m,
                volume_z: f.volume_z,
                rv_short: f.rv_short,
                rv_long: f.rv_long,
                velocity_1m: f.velocity_1m,
                velocity_5m: f.velocity_5m,
                trend_strength: r.trend_strength,
                vol_ratio: r.vol_ratio,
                htf_bullish: r.htf_bullish,
                bearish_bias: r.bearish_bias,
                vol_squeeze: r.vol_squeeze,
            }),
    {
        FeatureSnapshot {
            ema20_5m: f.ema20_5m,
            ema50_5m: f.ema50_5m,
            ema20_1h: f.ema20_1h,
            ema50_1h: f.ema50_1h,
            ema200_1h: f.ema200_1h,
            atr14_5m: f.atr14_5m,
            atr_ratio_5m: f.atr_ratio_5m,
            bb_mid20_5m: f.bb_mid20_5m,
            bb_width_5m: f.bb_width_5m,
            rsi14_5m: f.rsi14_5m,
            rsi14_1m: f.rsi14_1m,
            volume_z: f.volume_z,
            rv_short: f.rv_short,
            rv_long: f.rv_long,
            velocity_1m: f.velocity_1m,
            velocity_5m: f.velocity_5m,
            trend_strength: r.trend_strength,
            vol_ratio: r.vol_ratio,
            htf_bullish: r.htf_bullish,
            bearish_bias: r.bearish_bias,
            vol_squeeze: r.vol_squeeze,
        }
    }
}

/// The life of one trade. The exit side is filled when the position closes.
#[derive(Clone, Debug)]
pub struct TradeRecord {
    pub trade_id: String,
    pub symbol: String,
    pub regime: Regime,
    pub strategy: String,
    pub score: i128,
    pub entry_time_ms: u64,
    pub entry_price: i128,
    pub qty: i128,
    pub position_value_usdt: i128,
    pub stop_price: i128,
    pub tp_price: Option<i128>,
    pub exit_time_ms: Option<u64>,
    pub exit_price: Option<i128>,
    pub exit_reason: Option<String>,
    pub gross_pnl_usdt: Option<i128>,
    pub entry_fee_usdt: Option<i128>,
    pub exit_fee_usdt: Option<i128>,
    pub net_pnl_usdt: Option<i128>,
    pub slippage_usdt: Option<i128>,
    /// The largest gain while the trade was open.
    pub mfe_usdt: Option<i128>,
    /// The largest loss while the trade was open.
    pub mae_usdt: Option<i128>,
    pub duration_ms: Option<u64>,
    pub features: FeatureSnapshot,
}

/// The content of a [`TradeRecord`].
pub struct TradeView {
    pub trade_id: Seq<char>,
    pub symbol: Seq<char>,
    pub regime: Regime,
    pub strategy: Seq<char>,
    pub score: i128,
    pub entry_time_ms: u64,
    pub entry_price: i128,
    pub qty: i128,
    pub position_value_usdt: i128,
    pub stop_price: i128,
    pub tp_price: Option<i128>,
    pub exit_time_ms: Option<u64>,
    pub exit_price: Option<i128>,
    pub exit_reason: Option<Seq<char>>,
    pub gross_pnl_usdt: Option<i128>,
    pub entry_fee_usdt: Option<i128>,
    pub exit_fee_usdt: Option<i128>,
    pub net_pnl_usdt: Option<i128>,
    pub slippage_usdt: Option<i128>,
    pub mfe_usdt: Option<i128>,
    pub mae_usdt: Option<i128>,
    pub duration_ms: Option<u64>,
    pub features: FeatureSnapshot,
}

impl View for TradeRecord {
    type V = TradeView;

    open spec fn view(&self) -> TradeView {
        TradeView {
            trade_id: self.trade_id@,
            symbol: self.symbol@,
            regime: self.regime,
            strategy: self.strategy@,
            score: self.score,
            entry_time_ms: self.entry_time_ms,
            entry_price: self.entry_price,
            qty: self.qty,
            position_value_usdt: self.position_value_usdt,
            stop_price: self.stop_price,
            tp_price: self.tp_price,
            exit_time_ms: self.exit_time_ms,
            exit_price: self.exit_price,
            exit_reason: match self.exit_reason {
                Some(r) => Some(r@),
                None => None,
            },
            gross_pnl_usdt: self.gross_pnl_usdt,
            entry_fee_usdt: self.entry_fee_usdt,
            exit_fee_usdt: self.exit_fee_usdt,
            net_pnl_usdt: self.net_pnl_usdt,
            slippage_usdt: self.slippage_usdt,
            mfe_usdt: self.mfe_usdt,
            mae_usdt: self.mae_usdt,
            duration_ms: self.duration_ms,
            features: self.features,
        }
    }
}

/// The identifier of a trade.
pub open spec fn trade_id_text(entry_time_ms: u64, symbol: Seq<char>) -> Seq<char> {
    nat_text(entry_time_ms as nat) + "_"@ + symbol
}

/// The identifier of a trade: the time of its entry and the symbol.
pub fn trade_id(entry_time_ms: u64, symbol: &str) -> (s: String)
    ensures
        s@ == trade_id_text(entry_time_ms, symbol@),
{
    let mut s: String = u64_string(entry_time_ms);
    s.append("_");
    s.append(symbol);
    s
}

/// What a move of the price earned: the distance times the quantity.
pub open spec fn gross_of(entry_price: int, exit_price: int, qty: int) -> int {
    times(exit_price - entry_price, qty)
}

/// The record of a trade at its entry.
pub open spec fn opened_record(
    symbol: Seq<char>,
    regime: Regime,
    strategy: Seq<char>,
    score: i128,
    entry_time_ms: u64,
    entry_price: i128,
    qty: i128,
    stop_price: i128,
    tp_price: Option<i128>,
    entry_fee_usdt: i128,
    features: FeatureSnapshot,
) -> TradeView {
    TradeView {
        trade_id: trade_id_text(entry_time_ms, symbol),
        symbol,
        regime,
        strategy,
        score,
        entry_time_ms,
        entry_price,
        qty,
        position_value_usdt: times(entry_price as int, qty as int) as i128,
        stop_price,
        tp_price,
        exit_time_ms: None,
        exit_price: None,
        exit_reason: None,
        gross_pnl_usdt: None,
        entry_fee_usdt: Some(entry_fee_usdt),
        exit_fee_usdt: None,
        net_pnl_usdt: None,
        slippage_usdt: None,
        mfe_usdt: None,
        mae_usdt: None,
        duration_ms: None,
        features,
    }
}

impl TradeView {
    /// The amounts that the statistics compute with are within the range of the
    /// arithmetic.
    pub open spec fn ok(self) -> bool {
        &&& self.net_pnl_usdt is Some ==> bounded(self.net_pnl_usdt->0 as int)
        &&& bounded(self.position_value_usdt as int)
        &&& self.mfe_usdt is Some ==> bounded(self.mfe_usdt->0 as int)
        &&& self.mae_usdt is Some ==> bounded(self.mae_usdt->0 as int)
        &&& self.features.ok()
    }

    /// The record with its exit side.
    pub open spec fn closed(
        self,
        exit_time_ms: u64,
        exit_price: i128,
        exit_reason: Seq<char>,
        exit_fee_usdt: i128,
        mfe_usdt: Option<i128>,
        mae_usdt: Option<i128>,
    ) -> TradeView {
        let gross = gross_of(self.entry_price as int, exit_price as int, self.qty as int);
        let entry_fee = match self.entry_fee_usdt {
            Some(f) => f as int,
            None => 0,
        };
        TradeView {
            exit_time_ms: Some(exit_time_ms),
            exit_price: Some(exit_price),
            exit_reason: Some(exit_reason),
            gross_pnl_usdt: Some(gross as i128),
            exit_fee_usdt: Some(exit_fee_usdt),
            net_pnl_usdt: Some(saturated(gross - entry_fee - exit_fee_usdt) as i128),
            mfe_usdt,
            mae_usdt,
            duration_ms: Some(
                (if exit_time_ms >= self.entry_time_ms {
                    exit_time_ms - self.entry_time_ms
                } else {
                    0
                }) as u64,
            ),
            ..self
        }
    }
}

impl TradeRecord {
    /// The record of a trade at its entry.
    pub fn open(
        symbol: &str,
        regime: Regime,
        strategy: &str,
        score: i128,
        entry_time_ms: u64,
        entry_price: i128,
        qty: i128,
        stop_price: i128,
        tp_price: Option<i128>,
        entry_fee_usdt: i128,
        features: FeatureSnapshot,
    ) -> (r: TradeRecord)
        requires
            bounded(entry_price as int),
            bounded(qty as int),
        ensures
            r@ == opened_record(
                symbol@,
                regime,
                strategy@,
                score,
                entry_time_ms,
                entry_price,
                qty,
                stop_price,
                tp_price,
                entry_fee_usdt,
                features,
            ),
    {
        TradeRecord {
            trade_id: trade_id(entry_time_ms, symbol),
            symbol: String::from_str(symbol),
            regime,
            strategy: String::from_str(strategy),
            score,
            entry_time_ms,
            entry_price,
            qty,
            position_value_usdt: mul_bounded(entry_price, qty),
            stop_price,
            tp_price,
            exit_time_ms: None,
            exit_price: None,
            exit_reason: None,
            gross_pnl_usdt: None,
            entry_fee_usdt: Some(entry_fee_usdt),
            exit_fee_usdt: None,
            net_pnl_usdt: None,
            slippage_usdt: None,
            mfe_usdt: None,
            mae_usdt: None,
            duration_ms: None,
            features,
        }
    }

    /// Fills the exit side: the net result is the gross one less both fees.
    pub fn close(
        &mut self,
        exit_time_ms: u64,
        exit_price: i128,
        exit_reason: &str,
        exit_fee_usdt: i128,
        mfe_usdt: Option<i128>,
        mae_usdt: Option<i128>,
    )
        requires
            bounded(old(self).entry_price as int),
            bounded(old(self).qty as int),
            old(self).entry_fee_usdt is Some ==> bounded(old(self).entry_fee_usdt->0 as int),
            bounded(exit_price as int),
            bounded(exit_fee_usdt as int),
        ensures
            final(self)@ == old(self)@.closed(
                exit_time_ms,
                exit_price,
                exit_reason@,
                exit_fee_usdt,
                mfe_usdt,
                mae_usdt,
            ),
    {
        let gross: i128 = mul_bounded(exit_price - self.entry_price, self.qty);
        let entry_fee: i128 = match self.entry_fee_usdt {
            Some(f) => f,
            None => 0,
        };
        self.exit_time_ms = Some(exit_time_ms);
        self.exit_price = Some(exit_price);
        self.exit_reason = Some(String::from_str(exit_reason));
        self.gross_pnl_usdt = Some(gross);
        self.exit_fee_usdt = Some(exit_fee_usdt);
        self.net_pnl_usdt = Some(saturate(gross - entry_fee - exit_fee_usdt));
        self.mfe_usdt = mfe_usdt;
        self.mae_usdt = mae_usdt;
        self.duration_ms = Some(exit_time_ms.saturating_sub(self.entry_time_ms));
    }
}

/// The closing of a position that an earlier run opened.
#[derive(Clone, Debug)]
pub struct ExitRecord {
    pub trade_id: String,
    pub gross_pnl_usdt: i128,
    pub duration_ms: u64,
}

/// What is recorded of the closing of a position that an earlier run opened.
pub fn exit_record(
    symbol: &str,
    entry_time_ms: u64,
    entry_price: i128,
    exit_time_ms: u64,
    exit_price: i128,
    qty: i128,
) -> (r: ExitRecord)
    requires
        bounded(entry_price as int),
        bounded(exit_price as int),
        bounded(qty as int),
    ensures
        r.trade_id@ == trade_id_text(entry_time_ms, symbol@),
        r.gross_pnl_usdt == gross_of(entry_price as int, exit_price as int, qty as int),
        r.duration_ms == (if exit_time_ms >= entry_time_ms {
            exit_time_ms - entry_time_ms
        } else {
            0
        }),
{
    ExitRecord {
        trade_id: trade_id(entry_time_ms, symbol),
        gross_pnl_usdt: mul_bounded(exit_price - entry_price, qty),
        duration_ms: exit_time_ms.saturating_sub(entry_time_ms),
    }
}

/// Where records go: nowhere, unless a path is set.
pub struct TelemetryWriter {
    pub path: Option<String>,
}

impl TelemetryWriter {
    /// A writer for the given path. A blank one counts as none.
    pub fn for_path(path: Option<String>) -> (w: TelemetryWriter)
        ensures
            match path {
                Some(p) => if is_blank(p@) {
                    w.path is None
                } else {
                    w.path == Some(p)
                },
                None => w.path is None,
            },
    {
        match path {
            Some(p) => {
                if trim_text(p.as_str()).as_str().is_empty() {
                    TelemetryWriter { path: None }
                } else {
                    TelemetryWriter { path: Some(p) }
                }
            },
            None => TelemetryWriter { path: None },
        }
    }
}

/// Closing a trade changes nothing of its entry side.
pub proof fn law_closing_keeps_the_entry(
    t: TradeView,
    exit_time_ms: u64,
    exit_price: i128,
    exit_reason: Seq<char>,
    exit_fee_usdt: i128,
    mfe_usdt: Option<i128>,
    mae_usdt: Option<i128>,
)
    ensures
        ({
            let c = t.closed(
                exit_time_ms,
                exit_price,
                exit_reason,
                exit_fee_usdt,
                mfe_usdt,
                mae_usdt,
            );
            &&& c.trade_id == t.trade_id
            &&& c.symbol == t.symbol
            &&& c.entry_time_ms == t.entry_time_ms
            &&& c.entry_price == t.entry_price
            &&& c.qty == t.qty
            &&& c.entry_fee_usdt == t.entry_fee_usdt
            &&& c.features == t.features
        }),
{
}

} // verus!
