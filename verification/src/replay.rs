//! The history that a backtest replays: its parts, and the bars that are made of it.
use crate::backtest::Bar;
use crate::candles::candles_in_range;
use crate::features::{
    candles_ok, compute_features, enough_candles, is_features,
    law_features_are_determined, Candle,
    Features, Measures,
};
use crate::fixed::max_of;
use crate::regime::{
    bearish_bias, detect_regime, htf_bullish, regime_of, trend_strength, vol_ratio, vol_squeeze,
    RegimeResult, RegimeThresholds,
};
use crate::telemetry::FeatureSnapshot;
use crate::tick::Reading;
use crate::windows::{
    bar_windows, first_from, is_context, is_first_from, law_context_is_unique,
    law_context_sees_no_later_candle, padded_start, range_result, same_until, select_range, through,
    BarWindows, RangeError, Span, WalkWindow, HISTORY, WARM_UP,
};
use vstd::prelude::*;

verus! {

/// The candles of the three intervals.
pub struct History {
    pub m1: Vec<Candle>,
    pub m5: Vec<Candle>,
    pub h1: Vec<Candle>,
}

/// What the regime detector reads from features.
pub open spec fn reading_of(f: Features, t: RegimeThresholds) -> Reading {
    Reading {
        regime: regime_of(f, t),
        vol_ratio: vol_ratio(f) as i128,
        vol_squeeze: vol_squeeze(f, t),
        htf_bullish: htf_bullish(f),
        bearish_bias: bearish_bias(f),
    }
}

/// The snapshot of features and of what the regime detector made of them.
pub open spec fn snapshot_of(f: Features, t: RegimeThresholds) -> FeatureSnapshot {
    FeatureSnapshot {
        ema20_5m: f.ema20_5m,
        ema50_5m: f.ema50_5m,
        ema20_1h: f.ema20_1h,
        ema50_1h: f.ema50_1h,
        ema200_1h: f.ema200_1h,
        atr14_5m: f.atr14_5m,
        atr_ratio_5m: f.atr_ratio_5m,
        bb_mid20_5m: f.bb_mid20_5m,
        bb_width_5m: f.bb_width_5m,
        rsi14_5m: f.rsi14_5m,
        rsi14_1m: f.rsi14_1m,
        volume_z: f.volume_z,
        rv_short: f.rv_short,
        rv_long: f.rv_long,
        velocity_1m: f.velocity_1m,
        velocity_5m: f.velocity_5m,
        trend_strength: trend_strength(f) as i128,
        vol_ratio: vol_ratio(f) as i128,
        htf_bullish: htf_bullish(f),
        bearish_bias: bearish_bias(f),
        vol_squeeze: vol_squeeze(f, t),
    }
}

/// A piece of a list.
pub open spec fn piece(c: Seq<Candle>, s: Span) -> Seq<Candle> {
    c.subrange(s.from as int, s.to as int)
}

fn copy_piece(c: &Vec<Candle>, from: usize, to: usize) -> (v: Vec<Candle>)
    requires
        from <= to <= c@.len(),
    ensures
        v@ == c@.subrange(from as int, to as int),
        candles_ok(c@) ==> candles_ok(v@),
{
    let mut v: Vec<Candle> = Vec::new();
    let mut i: usize = from;
    while i < to
        invariant
            from <= i <= to <= c@.len(),
            v@ == c@.subrange(from as int, i as int),
        decreases to - i,
    {
        v.push(c[i]);
        assert(v@ =~= c@.subrange(from as int, i + 1));
        i += 1;
    }
    v
}

/// Whether `part` is the end of a list that starts 210 candles before the time `t`.
pub open spec fn is_padded(c: Seq<Candle>, t: i64, part: Seq<Candle>) -> bool {
    exists|i: int| #[trigger] is_first_from(c, t, i) && part == c.skip(max_of(i - 210, 0))
}

/// Whether `part` is the end of a list that starts at the time `t`; all of it where
/// the list ends before.
pub open spec fn is_end_from(c: Seq<Candle>, t: i64, part: Seq<Candle>) -> bool {
    exists|i: int| #[trigger]
        is_first_from(c, t, i) && part == (if i < c.len() {
            c.skip(i)
        } else {
            c
        })
}

fn padded_end(c: &Vec<Candle>, t: i64) -> (v: Vec<Candle>)
    ensures
        is_padded(c@, t, v@),
        candles_ok(c@) ==> candles_ok(v@),
{
    let at: usize = padded_start(c, t);
    let v: Vec<Candle> = copy_piece(c, at, c.len());
    assert(v@ =~= c@.skip(at as int));
    v
}

fn end_from(c: &Vec<Candle>, t: i64) -> (v: Vec<Candle>)
    ensures
        is_end_from(c@, t, v@),
        candles_ok(c@) ==> candles_ok(v@),
{
    let i: usize = first_from(c, t);
    assert(is_first_from(c@, t, i as int));
    let at: usize = if i < c.len() {
        i
    } else {
        0
    };
    let v: Vec<Candle> = copy_piece(c, at, c.len());
    assert(v@ =~= c@.skip(at as int));
    assert(c@.skip(0) =~= c@);
    v
}

impl History {
    /// Every price is within the range of the indicators.
    pub open spec fn ok(self) -> bool {
        candles_ok(self.m1@) && candles_ok(self.m5@) && candles_ok(self.h1@)
    }

    /// Whether every price is within the range of the indicators.
    pub fn in_range(&self) -> (r: bool)
        ensures
            r == self.ok(),
    {
        candles_in_range(&self.m1) && candles_in_range(&self.m5) && candles_in_range(&self.h1)
    }

    /// The part of the history between two fractions of it, with some history of the
    /// other intervals before it.
    pub fn cut(&self, start_frac: i128, end_frac: i128, least: usize) -> (r: Result<
        History,
        RangeError,
    >)
        requires
            least > 0,
        ensures
            match range_result(
                self.m5@.len() as int,
                start_frac as int,
                end_frac as int,
                least as int,
            ) {
                Ok(s) => {
                    let t = self.m5@[s.from as int].open_time;
                    &&& r is Ok
                    &&& r->Ok_0.m5@ == piece(self.m5@, s)
                    &&& is_padded(self.m1@, t, r->Ok_0.m1@)
                    &&& is_padded(self.h1@, t, r->Ok_0.h1@)
                    &&& r->Ok_0.m5@.len() > 0
                },
                Err(e) => r is Err && r->Err_0 == e && e.ok(),
            },
            r is Ok && self.ok() ==> r->Ok_0.ok(),
    {
        match select_range(self.m5.len(), start_frac, end_frac, least) {
            Ok(s) => {
                let t: i64 = self.m5[s.from].open_time;
                Ok(
                    History {
                        m1: padded_end(&self.m1, t),
                        m5: copy_piece(&self.m5, s.from, s.to),
                        h1: padded_end(&self.h1, t),
                    },
                )
            },
            Err(e) => Err(e),
        }
    }

    /// The history of one window of a walk.
    pub fn window(&self, w: &WalkWindow) -> (h: History)
        requires
            w.start < w.end <= self.m5@.len(),
        ensures
            ({
                let t = self.m5@[w.start as int].open_time;
                &&& h.m5@ == self.m5@.subrange(w.start as int, w.end as int)
                &&& is_end_from(self.m1@, t, h.m1@)
                &&& is_end_from(self.h1@, t, h.h1@)
            }),
            self.ok() ==> h.ok(),
    {
        let t: i64 = self.m5[w.start].open_time;
        History {
            m1: end_from(&self.m1, t),
            m5: copy_piece(&self.m5, w.start, w.end),
            h1: end_from(&self.h1, t),
        }
    }

    /// Whether `w` are the windows of the bar at `i`.
    pub open spec fn is_windows(self, i: int, w: BarWindows) -> bool {
        let t = self.m5@[i].open_time;
        &&& w.m5 == (Span { from: max_of(i + 1 - HISTORY, 0) as usize, to: (i + 1) as usize })
        &&& is_context(self.m1@, t, w.m1)
        &&& is_context(self.h1@, t, w.h1)
        &&& w.m1.from <= w.m1.to <= self.m1@.len()
        &&& w.h1.from <= w.h1.to <= self.h1@.len()
    }

    /// Whether the windows hold enough candles for the features.
    pub open spec fn suffices(self, w: BarWindows) -> bool {
        enough_candles(
            piece(self.m1@, w.m1).len() as int,
            piece(self.m5@, w.m5),
            piece(self.h1@, w.h1).len() as int,
        )
    }

    /// Whether `b` is the bar at `i`, made of its windows and measures.
    pub open spec fn is_bar(
        self,
        i: int,
        w: BarWindows,
        m: Measures,
        t: RegimeThresholds,
        b: Bar,
    ) -> bool {
        &&& self.is_windows(i, w)
        &&& self.suffices(w)
        &&& b.candle == self.m5@[i]
        &&& is_features(
            piece(self.m1@, w.m1),
            piece(self.m5@, w.m5),
            piece(self.h1@, w.h1),
            m,
            b.features,
        )
        &&& b.reading == reading_of(b.features, t)
        &&& b.snapshot == snapshot_of(b.features, t)
    }

    /// Whether there is a bar at `i`: its measures are there, enough bars came before
    /// it, and its windows hold enough candles.
    pub open spec fn has_bar(self, i: int, m: Option<Measures>) -> bool {
        &&& m is Some
        &&& i + 1 >= WARM_UP
        &&& exists|w: BarWindows| #[trigger] self.is_windows(i, w) && self.suffices(w)
    }

    /// Whether `b` is the bar at `i`.
    pub open spec fn is_bar_at(self, i: int, m: Measures, t: RegimeThresholds, b: Bar) -> bool {
        exists|w: BarWindows| #[trigger] self.is_bar(i, w, m, t, b)
    }

    /// How many bars there are before `n`.
    pub open spec fn bar_count(self, m: Seq<Option<Measures>>, n: int) -> int
        decreases n,
    {
        if n <= 0 {
            0
        } else {
            self.bar_count(m, n - 1) + (if self.has_bar(n - 1, m[n - 1]) {
                1int
            } else {
                0
            })
        }
    }

    /// Whether `v` are the bars of the five-minute candles before `n`, in their order:
    /// one for each that has one.
    pub open spec fn is_bars(
        self,
        m: Seq<Option<Measures>>,
        t: RegimeThresholds,
        n: int,
        v: Seq<Bar>,
    ) -> bool {
        &&& v.len() == self.bar_count(m, n)
        &&& forall|i: int|
            0 <= i < n && #[trigger] self.has_bar(i, m[i]) ==> self.is_bar_at(
                i,
                m[i]->0,
                t,
                v[self.bar_count(m, i)],
            )
    }

    /// The five-minute candles that the measures of the bar at `i` are taken from.
    pub open spec fn measured_at(self, i: int) -> Seq<Candle> {
        self.m5@.subrange(max_of(i + 1 - HISTORY, 0), i + 1)
    }

    /// Whether the measures are those that `f` takes of the candles.
    pub open spec fn measured_by(
        self,
        m: Seq<Option<Measures>>,
        f: spec_fn(Seq<Candle>) -> Option<Measures>,
    ) -> bool {
        &&& m.len() == self.m5@.len()
        &&& forall|i: int| WARM_UP <= i + 1 <= m.len() ==> #[trigger] m[i] == f(self.measured_at(i))
    }

    /// The five-minute candles that the measures of the bar at `i` are taken from; none
    /// while there is too little history.
    pub fn measured(&self, i: usize) -> (r: Option<Vec<Candle>>)
        requires
            i < self.m5@.len(),
        ensures
            r is Some <==> i + 1 >= WARM_UP,
            r is Some ==> r->0@ == self.measured_at(i as int),
    {
        let size: usize = self.m5.len();
        assert(i < size);
        match bar_windows(i, &self.m1, &self.m5, &self.h1) {
            Some(w) => Some(copy_piece(&self.m5, w.m5.from, w.m5.to)),
            None => None,
        }
    }

    /// Makes the bar at `i`; none while there is too little history for it.
    pub fn bar(&self, i: usize, m: &Measures, t: &RegimeThresholds) -> (r: Option<Bar>)
        requires
            i < self.m5@.len(),
            self.ok(),
            m.ok(),
        ensures
            match r {
                Some(b) => {
                    &&& self.has_bar(i as int, Some(*m))
                    &&& self.is_bar_at(i as int, *m, *t, b)
                    &&& b.ok()
                },
                None => !self.has_bar(i as int, Some(*m)),
            },
    {
        let size: usize = self.m5.len();
        assert(i < size);
        let w: BarWindows = match bar_windows(i, &self.m1, &self.m5, &self.h1) {
            Some(w) => w,
            None => return None,
        };
        assert(self.is_windows(i as int, w));
        let c1: Vec<Candle> = copy_piece(&self.m1, w.m1.from, w.m1.to);
        let c5: Vec<Candle> = copy_piece(&self.m5, w.m5.from, w.m5.to);
        let c60: Vec<Candle> = copy_piece(&self.h1, w.h1.from, w.h1.to);
        let features: Features = match compute_features(&c1, &c5, &c60, m) {
            Ok(f) => f,
            Err(_) => {
                proof {
                    assert(!self.suffices(w));
                    assert forall|x: BarWindows| #[trigger]
                        self.is_windows(i as int, x) implies !self.suffices(x) by {
                        law_windows_are_determined(*self, i as int, w, x);
                    }
                }
                return None;
            },
        };
        let r: RegimeResult = detect_regime(&features, t);
        let snapshot: FeatureSnapshot = FeatureSnapshot::from_features_and_regime(&features, &r);
        let b: Bar = Bar {
            candle: self.m5[i],
            features,
            reading: Reading {
                regime: r.regime,
                vol_ratio: r.vol_ratio,
                vol_squeeze: r.vol_squeeze,
                htf_bullish: r.htf_bullish,
                bearish_bias: r.bearish_bias,
            },
            snapshot,
        };
        assert(self.m5@[i as int].ok());
        assert(self.is_bar(i as int, w, *m, *t, b));
        Some(b)
    }

    /// Makes the bars of the whole history, given the measures of each five-minute
    /// candle: one bar for each candle whose measures are there and whose windows
    /// suffice, in their order.
    pub fn bars_of(&self, m: &Vec<Option<Measures>>, t: &RegimeThresholds) -> (v: Vec<Bar>)
        requires
            self.ok(),
            measures_ok(m@),
            m@.len() == self.m5@.len(),
        ensures
            self.is_bars(m@, *t, m@.len() as int, v@),
            v@.len() <= max_of(self.m5@.len() - (WARM_UP - 1), 0),
            forall|k: int| 0 <= k < v@.len() ==> (#[trigger] v@[k]).ok(),
    {
        let mut v: Vec<Bar> = Vec::new();
        let mut i: usize = 0;
        while i < m.len()
            invariant
                i <= m@.len() == self.m5@.len(),
                self.ok(),
                measures_ok(m@),
                self.is_bars(m@, *t, i as int, v@),
                forall|k: int| 0 <= k < v@.len() ==> (#[trigger] v@[k]).ok(),
            decreases m@.len() - i,
        {
            let ghost before = v@;
            assert(m@[i as int] is Some ==> m@[i as int]->0.ok());
            if let Some(x) = &m[i] {
                if let Some(b) = self.bar(i, x, t) {
                    v.push(b);
                }
            }
            proof {
                assert forall|k: int|
                    0 <= k < i + 1 && #[trigger] self.has_bar(k, m@[k]) implies self.is_bar_at(
                    k,
                    m@[k]->0,
                    *t,
                    v@[self.bar_count(m@, k)],
                ) by {
                    if k < i {
                        lemma_bar_count(*self, m@, k, k);
                        lemma_bar_count(*self, m@, k + 1, i as int);
                        assert(v@[self.bar_count(m@, k)] == before[self.bar_count(m@, k)]);
                    }
                }
            }
            i += 1;
        }
        proof {
            law_bars_follow_the_warm_up(*self, m@, m@.len() as int);
        }
        v
    }
}

/// The measures that are there are within the range of the arithmetic.
pub open spec fn measures_ok(m: Seq<Option<Measures>>) -> bool {
    forall|i: int| 0 <= i < m.len() && (#[trigger] m[i]) is Some ==> m[i]->0.ok()
}

/// There is only one choice of the windows of a bar.
pub proof fn law_windows_are_determined(h: History, i: int, w: BarWindows, x: BarWindows)
    requires
        h.is_windows(i, w),
        h.is_windows(i, x),
    ensures
        w == x,
{
    law_context_is_unique(h.m1@, h.m5@[i].open_time, w.m1, x.m1);
    law_context_is_unique(h.h1@, h.m5@[i].open_time, w.h1, x.h1);
}

/// The history and the measures leave no choice of a bar.
pub proof fn law_bar_is_determined(
    h: History,
    i: int,
    m: Measures,
    t: RegimeThresholds,
    b: Bar,
    c: Bar,
)
    requires
        h.is_bar_at(i, m, t, b),
        h.is_bar_at(i, m, t, c),
    ensures
        b == c,
{
    let w = choose|w: BarWindows| #[trigger] h.is_bar(i, w, m, t, b);
    let x = choose|x: BarWindows| #[trigger] h.is_bar(i, x, m, t, c);
    law_windows_are_determined(h, i, w, x);
    law_features_are_determined(
        piece(h.m1@, w.m1),
        piece(h.m5@, w.m5),
        piece(h.h1@, w.h1),
        m,
        b.features,
        c.features,
    );
}

/// The number of bars only grows.
proof fn lemma_bar_count(h: History, m: Seq<Option<Measures>>, i: int, n: int)
    requires
        0 <= i <= n,
    ensures
        0 <= h.bar_count(m, i) <= h.bar_count(m, n),
    decreases n,
{
    if i < n {
        lemma_bar_count(h, m, i, n - 1);
    } else if n > 0 {
        lemma_bar_count(h, m, n - 1, n - 1);
    }
}

/// The first 119 candles have no bar.
pub proof fn law_bars_follow_the_warm_up(h: History, m: Seq<Option<Measures>>, n: int)
    requires
        0 <= n,
    ensures
        h.bar_count(m, n) <= max_of(n - (WARM_UP - 1), 0),
    decreases n,
{
    if n > 0 {
        law_bars_follow_the_warm_up(h, m, n - 1);
    }
}

/// Each bar belongs to a candle.
proof fn lemma_bar_has_candle(h: History, m: Seq<Option<Measures>>, n: int, j: int) -> (i: int)
    requires
        0 <= n,
        0 <= j < h.bar_count(m, n),
    ensures
        0 <= i < n,
        h.has_bar(i, m[i]),
        h.bar_count(m, i) == j,
    decreases n,
{
    if j < h.bar_count(m, n - 1) {
        lemma_bar_has_candle(h, m, n - 1, j)
    } else {
        n - 1
    }
}

/// Whether two histories are the same as far as a bar at position `k` can see.
pub open spec fn same_through(a: History, b: History, k: int) -> bool {
    &&& 0 <= k < a.m5@.len()
    &&& k < b.m5@.len()
    &&& a.m5@.take(k + 1) == b.m5@.take(k + 1)
    &&& same_until(a.m1@, b.m1@, a.m5@[k].open_time)
    &&& same_until(a.h1@, b.h1@, a.m5@[k].open_time)
}

/// The five-minute candles come in the order of their times.
pub open spec fn in_order(c: Seq<Candle>) -> bool {
    forall|i: int, j: int|
        0 <= i < j < c.len() ==> (#[trigger] c[i]).open_time < (#[trigger] c[j]).open_time
}

/// What a bar sees is the same in both histories.
proof fn lemma_same_windows(a: History, b: History, k: int, i: int, w: BarWindows)
    requires
        same_through(a, b, k),
        in_order(a.m5@),
        0 <= i <= k,
        a.is_windows(i, w),
    ensures
        b.is_windows(i, w),
        a.m5@[i] == b.m5@[i],
        piece(a.m1@, w.m1) == piece(b.m1@, w.m1),
        piece(a.m5@, w.m5) == piece(b.m5@, w.m5),
        piece(a.h1@, w.h1) == piece(b.h1@, w.h1),
{
    let t = a.m5@[i].open_time;
    let later = a.m5@[k].open_time;
    assert(t <= later);
    let x = a.m5@.take(k + 1);
    assert forall|q: int| 0 <= q <= k implies a.m5@[q] == #[trigger] b.m5@[q] by {
        assert(x[q] == a.m5@[q]);
        assert(b.m5@.take(k + 1)[q] == b.m5@[q]);
    }
    law_context_sees_no_later_candle(a.m1@, b.m1@, t, later, w.m1);
    law_context_sees_no_later_candle(a.h1@, b.h1@, t, later, w.h1);
    assert(i < a.m5.len() == a.m5@.len());
    assert(piece(a.m5@, w.m5) =~= piece(b.m5@, w.m5));
}

proof fn lemma_same_through_symmetric(a: History, b: History, k: int)
    requires
        same_through(a, b, k),
    ensures
        same_through(b, a, k),
{
    assert(a.m5@.take(k + 1)[k] == b.m5@.take(k + 1)[k]);
    let t = a.m5@[k].open_time;
    lemma_same_until_symmetric(a.m1@, b.m1@, t);
    lemma_same_until_symmetric(a.h1@, b.h1@, t);
}

proof fn lemma_same_until_symmetric(a: Seq<Candle>, b: Seq<Candle>, t: i64)
    requires
        same_until(a, b, t),
    ensures
        same_until(b, a, t),
{
    let i = choose|i: int| #[trigger]
        is_first_from(a, t, i) && is_first_from(b, t, i) && through(a, i) == through(b, i);
    assert(is_first_from(b, t, i));
}

proof fn lemma_same_has_bar(a: History, b: History, k: int, i: int, m: Option<Measures>)
    requires
        same_through(a, b, k),
        in_order(a.m5@),
        0 <= i <= k,
        a.has_bar(i, m),
    ensures
        b.has_bar(i, m),
{
    let w = choose|w: BarWindows| #[trigger] a.is_windows(i, w) && a.suffices(w);
    lemma_same_windows(a, b, k, i, w);
    assert(b.is_windows(i, w) && b.suffices(w));
}

/// The same measures are taken of the same candles.
proof fn lemma_same_measures(
    a: History,
    b: History,
    ma: Seq<Option<Measures>>,
    mb: Seq<Option<Measures>>,
    f: spec_fn(Seq<Candle>) -> Option<Measures>,
    k: int,
    i: int,
)
    requires
        same_through(a, b, k),
        a.measured_by(ma, f),
        b.measured_by(mb, f),
        WARM_UP <= i + 1 <= k + 1,
    ensures
        ma[i] == mb[i],
{
    let x = a.m5@.take(k + 1);
    assert forall|q: int| 0 <= q <= k implies a.m5@[q] == #[trigger] b.m5@[q] by {
        assert(x[q] == a.m5@[q]);
        assert(b.m5@.take(k + 1)[q] == b.m5@[q]);
    }
    assert(a.measured_at(i) =~= b.measured_at(i));
    assert(ma[i] == f(a.measured_at(i)));
    assert(mb[i] == f(b.measured_at(i)));
}

proof fn lemma_same_count(
    a: History,
    b: History,
    ma: Seq<Option<Measures>>,
    mb: Seq<Option<Measures>>,
    f: spec_fn(Seq<Candle>) -> Option<Measures>,
    k: int,
    n: int,
)
    requires
        same_through(a, b, k),
        in_order(a.m5@),
        in_order(b.m5@),
        a.measured_by(ma, f),
        b.measured_by(mb, f),
        0 <= n <= k + 1,
    ensures
        a.bar_count(ma, n) == b.bar_count(mb, n),
    decreases n,
{
    if n > 0 {
        lemma_same_count(a, b, ma, mb, f, k, n - 1);
        if n >= WARM_UP {
            lemma_same_measures(a, b, ma, mb, f, k, n - 1);
            if a.has_bar(n - 1, ma[n - 1]) {
                lemma_same_has_bar(a, b, k, n - 1, ma[n - 1]);
            }
            if b.has_bar(n - 1, mb[n - 1]) {
                lemma_same_through_symmetric(a, b, k);
                lemma_same_has_bar(b, a, k, n - 1, mb[n - 1]);
            }
        }
    }
}

/// Two histories that are the same as far as the bar at `k` sees have the same bars
/// up to it, whatever way the measures are taken.
pub proof fn law_bars_do_not_look_ahead(
    a: History,
    b: History,
    ma: Seq<Option<Measures>>,
    mb: Seq<Option<Measures>>,
    f: spec_fn(Seq<Candle>) -> Option<Measures>,
    t: RegimeThresholds,
    va: Seq<Bar>,
    vb: Seq<Bar>,
    k: int,
)
    requires
        same_through(a, b, k),
        in_order(a.m5@),
        in_order(b.m5@),
        a.measured_by(ma, f),
        b.measured_by(mb, f),
        a.is_bars(ma, t, ma.len() as int, va),
        b.is_bars(mb, t, mb.len() as int, vb),
    ensures
        a.bar_count(ma, k + 1) == b.bar_count(mb, k + 1),
        0 <= a.bar_count(ma, k + 1) <= va.len(),
        b.bar_count(mb, k + 1) <= vb.len(),
        forall|j: int| 0 <= j < a.bar_count(ma, k + 1) ==> va[j] == #[trigger] vb[j],
{
    lemma_same_count(a, b, ma, mb, f, k, k + 1);
    lemma_bar_count(a, ma, k + 1, ma.len() as int);
    lemma_bar_count(b, mb, k + 1, mb.len() as int);
    assert forall|j: int| 0 <= j < a.bar_count(ma, k + 1) implies va[j] == #[trigger] vb[j] by {
        let i = lemma_bar_has_candle(a, ma, k + 1, j);
        lemma_same_measures(a, b, ma, mb, f, k, i);
        lemma_same_count(a, b, ma, mb, f, k, i);
        lemma_same_has_bar(a, b, k, i, ma[i]);
        let m = ma[i]->0;
        assert(a.is_bar_at(i, m, t, va[j]));
        assert(b.is_bar_at(i, m, t, vb[j]));
        let w = choose|w: BarWindows| #[trigger] a.is_bar(i, w, m, t, va[j]);
        lemma_same_windows(a, b, k, i, w);
        assert(b.is_bar(i, w, m, t, va[j]));
        law_bar_is_determined(b, i, m, t, va[j], vb[j]);
    }
}

/// A bar is that of the candle that it belongs to, and the bars after the first
/// `bar_count(m, n)` belong to the candles from `n` on.
pub proof fn law_later_bars_are_of_later_candles(
    h: History,
    m: Seq<Option<Measures>>,
    t: RegimeThresholds,
    v: Seq<Bar>,
    n: int,
    j: int,
) -> (i: int)
    requires
        0 <= n <= m.len() == h.m5@.len(),
        h.is_bars(m, t, m.len() as int, v),
        h.bar_count(m, n) <= j < v.len(),
    ensures
        n <= i < m.len(),
        v[j].candle == h.m5@[i],
{
    lemma_bar_count(h, m, n, n);
    let i = lemma_bar_has_candle(h, m, m.len() as int, j);
    if i < n {
        lemma_bar_count(h, m, i + 1, n);
    }
    assert(h.is_bar_at(i, m[i]->0, t, v[j]));
    i
}

/// The window of a bar ends with the bar itself and holds the bars before it, two hundred at
/// most.
pub proof fn law_window_ends_with_its_bar(h: History, i: int, w: BarWindows)
    requires
        h.is_windows(i, w),
        0 <= i < h.m5@.len(),
        h.m5@.len() <= usize::MAX,
    ensures
        w.m5.to == i + 1,
        i + 1 <= 200 ==> w.m5.from == 0,
        i + 1 > 200 ==> w.m5.to - w.m5.from == 200,
        piece(h.m5@, w.m5).last() == h.m5@[i],
{
}

/// A padded part reaches from 210 candles before the given time, or from the first one, to the
/// end.
pub proof fn law_padded_part_reaches_back(c: Seq<Candle>, t: i64, part: Seq<Candle>, i: int)
    requires
        is_padded(c, t, part),
        is_first_from(c, t, i),
    ensures
        i <= 210 ==> part =~= c,
        i > 210 ==> part.len() == c.len() - i + 210,
        part =~= c.skip(c.len() - part.len()),
{
    let j = choose|j: int| #[trigger] is_first_from(c, t, j) && part == c.skip(max_of(j - 210, 0));
    if i < j {
        assert(c[i].open_time < t);
    } else if j < i {
        assert(c[j].open_time < t);
    }
}

/// The snapshot of a trade tells the features that it was entered on, and what the market was
/// taken for.
pub proof fn law_snapshot_tells_the_features(f: Features, t: RegimeThresholds)
    ensures
        ({
            let s = snapshot_of(f, t);
            let r = reading_of(f, t);
            &&& s.ema20_5m == f.ema20_5m && s.ema50_5m == f.ema50_5m
            &&& s.ema20_1h == f.ema20_1h && s.ema50_1h == f.ema50_1h && s.ema200_1h == f.ema200_1h
            &&& s.atr14_5m == f.atr14_5m && s.atr_ratio_5m == f.atr_ratio_5m
            &&& s.bb_mid20_5m == f.bb_mid20_5m && s.bb_width_5m == f.bb_width_5m
            &&& s.rsi14_5m == f.rsi14_5m && s.rsi14_1m == f.rsi14_1m
            &&& s.volume_z == f.volume_z && s.rv_short == f.rv_short && s.rv_long == f.rv_long
            &&& s.velocity_1m == f.velocity_1m && s.velocity_5m == f.velocity_5m
            &&& s.vol_ratio == r.vol_ratio && s.vol_squeeze == r.vol_squeeze
            &&& s.htf_bullish == r.htf_bullish && s.bearish_bias == r.bearish_bias
            &&& r.htf_bullish <==> f.ema20_1h > f.ema50_1h && f.ema50_1h > f.ema200_1h
            &&& r.bearish_bias <==> f.ema20_1h < f.ema50_1h && f.ema50_1h < f.ema200_1h
        }),
{
}

} // verus!
