//! Tables that take the trades of a backtest apart.
use crate::backtest::trade_views;
use crate::fixed::{div_round, round_div, ONE};
use crate::metrics::{
    all_trades, belongs, feature_of, group_names, is_names, records_ok, summarize, summary_for,
    Feature, Group, GroupView, Key, Summary, TRADES_MAX,
};
use crate::regime::{regime_text, Regime};
use crate::telemetry::{TradeRecord, TradeView};
use crate::text::{
    ascending, fixed_string, fixed_text, insert_text, left_string, left_text, nat_text,
    right_string, right_text, same_text, texts, u64_string,
};
use vstd::prelude::*;

verus! {

/// A table of the trades of a strategy by the value of a feature at the entry.
#[derive(Clone, Copy, Debug, PartialEq, Eq, Structural)]
pub enum Table {
    ReversionVelocity1m,
    ReversionVolumeZ,
    ReversionVelocity5m,
    BreakoutVolumeZ,
    BreakoutSpread,
    BreakoutTrendStrength,
}

impl Table {
    /// The strategy whose trades are listed.
    pub open spec fn strategy_text(self) -> Seq<char> {
        match self {
            Table::ReversionVelocity1m | Table::ReversionVolumeZ | Table::ReversionVelocity5m =>
                "mean_reversion"@,
            _ => "trend_breakout"@,
        }
    }

    /// The strategy whose trades are listed.
    pub fn strategy(self) -> (s: &'static str)
        ensures
            s@ == self.strategy_text(),
    {
        match self {
            Table::ReversionVelocity1m | Table::ReversionVolumeZ | Table::ReversionVelocity5m =>
                "mean_reversion",
            _ => "trend_breakout",
        }
    }

    /// The name of the feature.
    pub open spec fn label_text(self) -> Seq<char> {
        match self {
            Table::ReversionVelocity1m => "velocity_1m"@,
            Table::ReversionVelocity5m => "velocity_5m"@,
            Table::ReversionVolumeZ | Table::BreakoutVolumeZ => "volume_z"@,
            Table::BreakoutSpread => "htf_ema_spread_pct"@,
            Table::BreakoutTrendStrength => "trend_strength"@,
        }
    }

    /// The name of the feature.
    pub fn label(self) -> (s: &'static str)
        ensures
            s@ == self.label_text(),
    {
        match self {
            Table::ReversionVelocity1m => "velocity_1m",
            Table::ReversionVelocity5m => "velocity_5m",
            Table::ReversionVolumeZ | Table::BreakoutVolumeZ => "volume_z",
            Table::BreakoutSpread => "htf_ema_spread_pct",
            Table::BreakoutTrendStrength => "trend_strength",
        }
    }

    /// The feature.
    pub open spec fn feature_spec(self) -> Feature {
        match self {
            Table::ReversionVelocity1m => Feature::Velocity1m,
            Table::ReversionVelocity5m => Feature::Velocity5m,
            Table::ReversionVolumeZ | Table::BreakoutVolumeZ => Feature::VolumeZ,
            Table::BreakoutSpread => Feature::HtfSpreadPct,
            Table::BreakoutTrendStrength => Feature::TrendStrength,
        }
    }

    /// The feature.
    pub fn feature(self) -> (f: Feature)
        ensures
            f == self.feature_spec(),
    {
        match self {
            Table::ReversionVelocity1m => Feature::Velocity1m,
            Table::ReversionVelocity5m => Feature::Velocity5m,
            Table::ReversionVolumeZ | Table::BreakoutVolumeZ => Feature::VolumeZ,
            Table::BreakoutSpread => Feature::HtfSpreadPct,
            Table::BreakoutTrendStrength => Feature::TrendStrength,
        }
    }

    /// The bounds between the ranges, in ascending order.
    pub open spec fn cuts(self) -> Seq<i128> {
        match self {
            Table::ReversionVelocity1m => seq![
                -2_000_000_000i128,
                -1_000_000_000i128,
                0i128,
                1_000_000_000i128,
                2_000_000_000i128,
            ],
            Table::ReversionVolumeZ => seq![
                -1_500_000_000_000i128,
                -1_000_000_000_000i128,
                -500_000_000_000i128,
                0i128,
                500_000_000_000i128,
                1_000_000_000_000i128,
            ],
            Table::ReversionVelocity5m => seq![
                -6_000_000_000i128,
                -3_000_000_000i128,
                0i128,
                3_000_000_000i128,
                6_000_000_000i128,
            ],
            Table::BreakoutVolumeZ => seq![
                -500_000_000_000i128,
                0i128,
                500_000_000_000i128,
                1_000_000_000_000i128,
                2_000_000_000_000i128,
            ],
            Table::BreakoutSpread => seq![
                0i128,
                100_000_000_000i128,
                200_000_000_000i128,
                400_000_000_000i128,
            ],
            Table::BreakoutTrendStrength => seq![
                800_000_000_000i128,
                1_200_000_000_000i128,
                1_600_000_000_000i128,
                2_200_000_000_000i128,
            ],
        }
    }

    /// The names of the ranges.
    pub open spec fn names(self) -> Seq<Seq<char>> {
        match self {
            Table::ReversionVelocity1m => seq![
                "< -0.002"@,
                "-0.002..-0.001"@,
                "-0.001..0"@,
                "0..0.001"@,
                "0.001..0.002"@,
                ">= 0.002"@,
            ],
            Table::ReversionVolumeZ => seq![
                "< -1.5"@,
                "-1.5..-1.0"@,
                "-1.0..-0.5"@,
                "-0.5..0"@,
                "0..0.5"@,
                "0.5..1.0"@,
                ">= 1.0"@,
            ],
            Table::ReversionVelocity5m => seq![
                "< -0.006"@,
                "-0.006..-0.003"@,
                "-0.003..0"@,
                "0..0.003"@,
                "0.003..0.006"@,
                ">= 0.006"@,
            ],
            Table::BreakoutVolumeZ => seq![
                "< -0.5"@,
                "-0.5..0"@,
                "0..0.5"@,
                "0.5..1.0"@,
                "1.0..2.0"@,
                ">= 2.0"@,
            ],
            Table::BreakoutSpread => seq!["< 0"@, "0..0.1"@, "0.1..0.2"@, "0.2..0.4"@, ">= 0.4"@],
            Table::BreakoutTrendStrength => seq![
                "< 0.8 (below cutoff — shouldn't occur)"@,
                "0.8..1.2"@,
                "1.2..1.6"@,
                "1.6..2.2"@,
                ">= 2.2"@,
            ],
        }
    }

    /// The bounds between the ranges.
    fn cut_list(self) -> (v: Vec<i128>)
        ensures
            v@ == self.cuts(),
    {
        let v: Vec<i128> = match self {
            Table::ReversionVelocity1m => vec![
                -2_000_000_000,
                -1_000_000_000,
                0,
                1_000_000_000,
                2_000_000_000,
            ],
            Table::ReversionVolumeZ => vec![
                -1_500_000_000_000,
                -1_000_000_000_000,
                -500_000_000_000,
                0,
                500_000_000_000,
                1_000_000_000_000,
            ],
            Table::ReversionVelocity5m => vec![
                -6_000_000_000,
                -3_000_000_000,
                0,
                3_000_000_000,
                6_000_000_000,
            ],
            Table::BreakoutVolumeZ => vec![
                -500_000_000_000,
                0,
                500_000_000_000,
                1_000_000_000_000,
                2_000_000_000_000,
            ],
            Table::BreakoutSpread => vec![0, 100_000_000_000, 200_000_000_000, 400_000_000_000],
            Table::BreakoutTrendStrength => vec![
                800_000_000_000,
                1_200_000_000_000,
                1_600_000_000_000,
                2_200_000_000_000,
            ],
        };
        assert(v@ =~= self.cuts());
        v
    }

    /// The names of the ranges.
    fn name_list(self) -> (v: Vec<&'static str>)
        ensures
            v@.len() == self.names().len(),
            forall|i: int| 0 <= i < v@.len() ==> (#[trigger] v@[i])@ == self.names()[i],
    {
        match self {
            Table::ReversionVelocity1m => vec![
                "< -0.002",
                "-0.002..-0.001",
                "-0.001..0",
                "0..0.001",
                "0.001..0.002",
                ">= 0.002",
            ],
            Table::ReversionVolumeZ => vec![
                "< -1.5",
                "-1.5..-1.0",
                "-1.0..-0.5",
                "-0.5..0",
                "0..0.5",
                "0.5..1.0",
                ">= 1.0",
            ],
            Table::ReversionVelocity5m => vec![
                "< -0.006",
                "-0.006..-0.003",
                "-0.003..0",
                "0..0.003",
                "0.003..0.006",
                ">= 0.006",
            ],
            Table::BreakoutVolumeZ => vec![
                "< -0.5",
                "-0.5..0",
                "0..0.5",
                "0.5..1.0",
                "1.0..2.0",
                ">= 2.0",
            ],
            Table::BreakoutSpread => vec!["< 0", "0..0.1", "0.1..0.2", "0.2..0.4", ">= 0.4"],
            Table::BreakoutTrendStrength => vec![
                "< 0.8 (below cutoff — shouldn't occur)",
                "0.8..1.2",
                "1.2..1.6",
                "1.6..2.2",
                ">= 2.2",
            ],
        }
    }

    /// The trades of the strategy.
    pub open spec fn everyone(self) -> GroupView {
        GroupView { strategy: Some(self.strategy_text()), ..all_trades() }
    }

    /// The trades of the strategy whose feature is between two bounds.
    pub open spec fn between(self, at_least: Option<i128>, below: Option<i128>) -> GroupView {
        GroupView { feature: Some(self.feature_spec()), at_least, below, ..self.everyone() }
    }

    /// The trades in the `i`-th range.
    pub open spec fn in_range(self, i: int) -> GroupView {
        self.between(
            if i > 0 {
                Some(self.cuts()[i - 1])
            } else {
                None
            },
            if i < self.cuts().len() {
                Some(self.cuts()[i])
            } else {
                None
            },
        )
    }

    fn group(self, at_least: Option<i128>, below: Option<i128>) -> (g: Group)
        ensures
            g@ == self.between(at_least, below),
    {
        let mut g: Group = Group::all();
        g.strategy = Some(String::from_str(self.strategy()));
        g.feature = Some(self.feature());
        g.at_least = at_least;
        g.below = below;
        g
    }
}

/// The bounds of a table ascend, so every value falls into exactly one range.
pub proof fn law_ranges_are_apart(t: Table, i: int, j: int)
    requires
        0 <= i < j < t.cuts().len(),
    ensures
        t.cuts()[i] < t.cuts()[j],
        t.names().len() == t.cuts().len() + 1,
{
}

/// The line of a range: the trades, the share of wins and the mean return.
pub open spec fn range_line_text(name: Seq<char>, m: Summary) -> Seq<char> {
    "\n"@ + left_text(name, 16) + " "@ + right_text(nat_text(m.count as nat), 6) + " "@ + right_text(
        fixed_text(100 * m.win_rate, 1),
        9,
    ) + "% "@ + right_text(fixed_text(m.avg_return_pct as int, 2), 10)
}

fn range_line(name: &str, m: &Summary) -> (s: String)
    requires
        0 <= m.win_rate <= ONE,
    ensures
        s@ == range_line_text(name@, *m),
{
    let mut s: String = String::from_str("\n");
    s.append(left_string(name, 16).as_str());
    s.append(" ");
    s.append(right_string(u64_string(m.count as u64).as_str(), 6).as_str());
    s.append(" ");
    s.append(right_string(fixed_string(100 * m.win_rate, 1).as_str(), 9).as_str());
    s.append("% ");
    s.append(right_string(fixed_string(m.avg_return_pct, 2).as_str(), 10).as_str());
    s
}

/// The lines of the first `n` ranges of a table.
pub open spec fn range_lines_text(t: Table, trades: Seq<TradeView>, n: int) -> Seq<char>
    decreases n,
{
    if n <= 0 {
        Seq::empty()
    } else {
        range_lines_text(t, trades, n - 1) + range_line_text(
            t.names()[n - 1],
            summary_for(trades, t.in_range(n - 1)),
        )
    }
}

/// The head of the columns of a table.
pub open spec fn range_head_text(label: Seq<char>) -> Seq<char> {
    left_text(label, 16) + "      n   win_rate   avg_ret%"@
}

/// A table by ranges, and the same trades split at zero.
pub open spec fn table_text(t: Table, trades: Seq<TradeView>) -> Seq<char> {
    let head = range_head_text(t.label_text());
    "\n=== "@ + t.label_text() + " at entry, "@ + t.strategy_text() + " only (n="@ + nat_text(
        summary_for(trades, t.between(None, None)).count as nat,
    ) + ") ===\n"@ + head + range_lines_text(t, trades, t.names().len() as int)
        + "\n\n--- simple split at 0.0 ---\n"@ + head + range_line_text(
        "<= 0.0"@,
        summary_for(trades, t.between(None, Some(1i128))),
    ) + range_line_text("> 0.0"@, summary_for(trades, t.between(Some(1i128), None)))
}

/// Does a feature separate the winners of a strategy from its losers? The table
/// tells, range by range.
pub fn threshold_table(trades: &Vec<TradeRecord>, t: Table) -> (s: String)
    requires
        records_ok(trades@),
    ensures
        s@ == table_text(t, trade_views(trades@)),
{
    let ghost views = trade_views(trades@);
    let cuts: Vec<i128> = t.cut_list();
    let names: Vec<&'static str> = t.name_list();
    let mut lines: String = String::new();
    let mut i: usize = 0;
    while i < names.len()
        invariant
            i <= names@.len(),
            names@.len() == t.names().len(),
            names@.len() == cuts@.len() + 1,
            cuts@ == t.cuts(),
            forall|k: int| 0 <= k < names@.len() ==> (#[trigger] names@[k])@ == t.names()[k],
            records_ok(trades@),
            views == trade_views(trades@),
            lines@ == range_lines_text(t, views, i as int),
        decreases names@.len() - i,
    {
        let at_least: Option<i128> = if i > 0 {
            Some(cuts[i - 1])
        } else {
            None
        };
        let below: Option<i128> = if i < cuts.len() {
            Some(cuts[i])
        } else {
            None
        };
        let m: Summary = summarize(trades, &t.group(at_least, below));
        assert(names@[i as int]@ == t.names()[i as int]);
        lines.append(range_line(names[i], &m).as_str());
        i += 1;
    }
    let all: Summary = summarize(trades, &t.group(None, None));
    let under: Summary = summarize(trades, &t.group(None, Some(1)));
    let over: Summary = summarize(trades, &t.group(Some(1), None));
    let mut head: String = left_string(t.label(), 16);
    head.append("      n   win_rate   avg_ret%");
    let mut s: String = String::from_str("\n=== ");
    s.append(t.label());
    s.append(" at entry, ");
    s.append(t.strategy());
    s.append(" only (n=");
    s.append(u64_string(all.count as u64).as_str());
    s.append(") ===\n");
    s.append(head.as_str());
    s.append(lines.as_str());
    s.append("\n\n--- simple split at 0.0 ---\n");
    s.append(head.as_str());
    s.append(range_line("<= 0.0", &under).as_str());
    s.append(range_line("> 0.0", &over).as_str());
    s
}

/// The cells of a group: the trades, their excursions, how long they took, and what
/// they returned.
pub open spec fn cells_text(m: Summary) -> Seq<char> {
    " "@ + right_text(nat_text(m.count as nat), 6) + " "@ + right_text(
        fixed_text(m.avg_mfe_pct as int, 2),
        10,
    ) + " "@ + right_text(fixed_text(m.avg_mae_pct as int, 2), 10) + " "@ + right_text(
        fixed_text(m.avg_minutes as int, 1),
        11,
    ) + " "@ + right_text(fixed_text(m.avg_return_pct as int, 2), 10)
}

fn cells(m: &Summary) -> (s: String)
    ensures
        s@ == cells_text(*m),
{
    let mut s: String = String::from_str(" ");
    s.append(right_string(u64_string(m.count as u64).as_str(), 6).as_str());
    s.append(" ");
    s.append(right_string(fixed_string(m.avg_mfe_pct, 2).as_str(), 10).as_str());
    s.append(" ");
    s.append(right_string(fixed_string(m.avg_mae_pct, 2).as_str(), 10).as_str());
    s.append(" ");
    s.append(right_string(fixed_string(m.avg_minutes, 1).as_str(), 11).as_str());
    s.append(" ");
    s.append(right_string(fixed_string(m.avg_return_pct, 2).as_str(), 10).as_str());
    s
}

/// The columns that [`cells_text`] fills.
pub const CELL_HEAD: &'static str = "      n   avg_mfe%   avg_mae% avg_dur_min   avg_ret%";

/// The trades of a group that left for a reason.
pub open spec fn for_reason(g: GroupView, reason: Seq<char>) -> GroupView {
    GroupView { exit_reason: Some(reason), ..g }
}

/// The lines of the first `n` reasons.
pub open spec fn reason_lines_text(
    trades: Seq<TradeView>,
    g: GroupView,
    names: Seq<Seq<char>>,
    n: int,
) -> Seq<char>
    decreases n,
{
    if n <= 0 {
        Seq::empty()
    } else {
        reason_lines_text(trades, g, names, n - 1) + ("\n"@ + left_text(names[n - 1], 45)
            + cells_text(summary_for(trades, for_reason(g, names[n - 1]))))
    }
}

fn reason_lines(trades: &Vec<TradeRecord>, strategy: Option<&str>, names: &Vec<String>) -> (s:
    String)
    requires
        records_ok(trades@),
    ensures
        s@ == reason_lines_text(
            trade_views(trades@),
            of_strategy(strategy),
            texts(names@),
            names@.len() as int,
        ),
{
    let ghost views = trade_views(trades@);
    let mut s: String = String::new();
    let mut i: usize = 0;
    while i < names.len()
        invariant
            i <= names@.len(),
            records_ok(trades@),
            views == trade_views(trades@),
            s@ == reason_lines_text(views, of_strategy(strategy), texts(names@), i as int),
        decreases names@.len() - i,
    {
        let mut g: Group = strategy_group(strategy);
        g.exit_reason = Some(String::from_str(names[i].as_str()));
        assert(texts(names@)[i as int] == names@[i as int]@);
        assert(g@ == for_reason(of_strategy(strategy), texts(names@)[i as int]));
        let m: Summary = summarize(trades, &g);
        let mut line: String = String::from_str("\n");
        line.append(left_string(names[i].as_str(), 45).as_str());
        line.append(cells(&m).as_str());
        s.append(line.as_str());
        i += 1;
    }
    s
}

/// The trades of a strategy, or all of them.
pub open spec fn of_strategy(strategy: Option<&str>) -> GroupView {
    match strategy {
        Some(t) => GroupView { strategy: Some(t@), ..all_trades() },
        None => all_trades(),
    }
}

fn strategy_group(strategy: Option<&str>) -> (g: Group)
    ensures
        g@ == of_strategy(strategy),
{
    let mut g: Group = Group::all();
    if let Some(t) = strategy {
        g.strategy = Some(String::from_str(t));
    }
    g
}

/// The reasons for which the trades of a strategy, or all trades, were left: one
/// line for each.
pub open spec fn is_reason_table(s: Seq<char>, trades: Seq<TradeView>, strategy: Option<&str>) -> bool {
    let g = of_strategy(strategy);
    let head = match strategy {
        Some(t) => "\n=== By exit reason, "@ + t@ + " only (n="@ + nat_text(
            summary_for(trades, g).count as nat,
        ) + ") ===\n"@,
        None => "\n=== By exit reason ===\n"@,
    };
    exists|names: Seq<Seq<char>>|
        is_names(names, trades, g, Key::ExitReason) && s == head + left_text("exit_reason"@, 45)
            + CELL_HEAD@ + #[trigger] reason_lines_text(trades, g, names, names.len() as int)
}

/// Takes the trades apart by the reason for which they were left.
pub fn exit_reason_table(trades: &Vec<TradeRecord>, strategy: Option<&str>) -> (s: String)
    requires
        records_ok(trades@),
    ensures
        is_reason_table(s@, trade_views(trades@), strategy),
{
    let ghost views = trade_views(trades@);
    let g: Group = strategy_group(strategy);
    let names: Vec<String> = group_names(trades, &g, Key::ExitReason);
    let mut s: String = match strategy {
        Some(t) => {
            let mut h: String = String::from_str("\n=== By exit reason, ");
            h.append(t);
            h.append(" only (n=");
            h.append(u64_string(summarize(trades, &g).count as u64).as_str());
            h.append(") ===\n");
            h
        },
        None => String::from_str("\n=== By exit reason ===\n"),
    };
    s.append(left_string("exit_reason", 45).as_str());
    s.append(CELL_HEAD);
    s.append(reason_lines(trades, strategy, &names).as_str());
    assert(reason_lines_text(views, g@, texts(names@), texts(names@).len() as int)
        == reason_lines_text(views, g@, texts(names@), names@.len() as int));
    s
}

/// The winners, or the losers.
pub open spec fn that_won(g: GroupView, won: bool) -> GroupView {
    GroupView { won: Some(won), ..g }
}

/// The trades of a strategy.
pub open spec fn trades_of(strategy: Seq<char>) -> GroupView {
    GroupView { strategy: Some(strategy), ..all_trades() }
}

/// The line of the winners or the losers of a strategy, where there are any.
pub open spec fn outcome_line_text(trades: Seq<TradeView>, name: Seq<char>, won: bool) -> Seq<char> {
    let m = summary_for(trades, that_won(trades_of(name), won));
    if m.count > 0 {
        "\n"@ + left_text(name, 20) + (if won {
            " win   "@
        } else {
            " loss  "@
        }) + cells_text(m)
    } else {
        Seq::empty()
    }
}

/// The lines of the first `n` strategies, the losers before the winners.
pub open spec fn outcome_lines_text(trades: Seq<TradeView>, names: Seq<Seq<char>>, n: int) -> Seq<
    char,
>
    decreases n,
{
    if n <= 0 {
        Seq::empty()
    } else {
        outcome_lines_text(trades, names, n - 1) + outcome_line_text(trades, names[n - 1], false)
            + outcome_line_text(trades, names[n - 1], true)
    }
}

fn outcome_line(trades: &Vec<TradeRecord>, name: &str, won: bool) -> (s: String)
    requires
        records_ok(trades@),
    ensures
        s@ == outcome_line_text(trade_views(trades@), name@, won),
{
    let mut g: Group = Group::all();
    g.strategy = Some(String::from_str(name));
    g.won = Some(won);
    assert(g@ == that_won(trades_of(name@), won));
    let m: Summary = summarize(trades, &g);
    if m.count == 0 {
        return String::new();
    }
    let mut s: String = String::from_str("\n");
    s.append(left_string(name, 20).as_str());
    if won {
        s.append(" win   ");
    } else {
        s.append(" loss  ");
    }
    s.append(cells(&m).as_str());
    s
}

/// The table of the winners and losers, of all trades and of each strategy.
pub open spec fn is_outcome_table(s: Seq<char>, trades: Seq<TradeView>) -> bool {
    let head = "\n=== MFE/MAE diagnostic (% of position value; n="@ + nat_text(trades.len())
        + ") ===\noutcome   "@ + CELL_HEAD@ + "\nwinners   "@ + cells_text(
        summary_for(trades, that_won(all_trades(), true)),
    ) + "\nlosers    "@ + cells_text(summary_for(trades, that_won(all_trades(), false)))
        + "\n\n=== By strategy x outcome ===\nstrategy             result"@ + CELL_HEAD@;
    exists|names: Seq<Seq<char>>|
        is_names(names, trades, all_trades(), Key::Strategy) && s == head
            + #[trigger] outcome_lines_text(trades, names, names.len() as int)
}

/// Takes the trades apart by what became of them. Small favourable and large
/// adverse excursions of the losers speak against the entries, large favourable ones
/// against the exits.
pub fn outcome_table(trades: &Vec<TradeRecord>) -> (s: String)
    requires
        records_ok(trades@),
    ensures
        is_outcome_table(s@, trade_views(trades@)),
{
    let ghost views = trade_views(trades@);
    let mut g: Group = Group::all();
    let names: Vec<String> = group_names(trades, &g, Key::Strategy);
    let ghost list = texts(names@);
    let mut lines: String = String::new();
    let mut i: usize = 0;
    while i < names.len()
        invariant
            i <= names@.len(),
            records_ok(trades@),
            views == trade_views(trades@),
            list == texts(names@),
            lines@ == outcome_lines_text(views, list, i as int),
        decreases names@.len() - i,
    {
        assert(list[i as int] == names@[i as int]@);
        lines.append(outcome_line(trades, names[i].as_str(), false).as_str());
        lines.append(outcome_line(trades, names[i].as_str(), true).as_str());
        i += 1;
    }
    g.won = Some(true);
    assert(g@ == that_won(all_trades(), true));
    let winners: Summary = summarize(trades, &g);
    g.won = Some(false);
    assert(g@ == that_won(all_trades(), false));
    let losers: Summary = summarize(trades, &g);
    let mut s: String = String::from_str("\n=== MFE/MAE diagnostic (% of position value; n=");
    s.append(u64_string(trades.len() as u64).as_str());
    s.append(") ===\noutcome   ");
    s.append(CELL_HEAD);
    s.append("\nwinners   ");
    s.append(cells(&winners).as_str());
    s.append("\nlosers    ");
    s.append(cells(&losers).as_str());
    s.append("\n\n=== By strategy x outcome ===\nstrategy             result");
    s.append(CELL_HEAD);
    s.append(lines.as_str());
    assert(views.len() == trades@.len());
    assert(outcome_lines_text(views, list, list.len() as int) == outcome_lines_text(
        views,
        list,
        names@.len() as int,
    ));
    s
}

/// Whether a trade was closed, in a regime and by a strategy.
pub open spec fn closed_in(t: TradeView, r: Regime, strategy: Seq<char>) -> bool {
    t.net_pnl_usdt is Some && t.regime == r && t.strategy == strategy
}

/// How many of the first `n` trades were closed in a regime by a strategy, and how
/// many of those won.
pub open spec fn closed_count(trades: Seq<TradeView>, r: Regime, strategy: Seq<char>, n: int) -> (
    int,
    int,
)
    decreases n,
{
    if n <= 0 {
        (0, 0)
    } else {
        let c = closed_count(trades, r, strategy, n - 1);
        let t = trades[n - 1];
        if closed_in(t, r, strategy) {
            (c.0 + 1, if t.net_pnl_usdt->0 > 0 {
                c.1 + 1
            } else {
                c.1
            })
        } else {
            c
        }
    }
}

/// Whether `names` are the strategies of those of the first `n` trades that were
/// closed in a regime, in alphabetical order and each once.
pub open spec fn is_strategies(
    names: Seq<Seq<char>>,
    trades: Seq<TradeView>,
    r: Regime,
    n: int,
) -> bool {
    &&& ascending(names)
    &&& forall|x: Seq<char>| #[trigger]
        names.contains(x) <==> exists|i: int| 0 <= i < n && closed_in(#[trigger] trades[i], r, x)
}

fn strategies_in(trades: &Vec<TradeRecord>, r: Regime) -> (v: Vec<String>)
    ensures
        is_strategies(texts(v@), trade_views(trades@), r, trades@.len() as int),
{
    let ghost views = trade_views(trades@);
    let mut v: Vec<String> = Vec::new();
    assert(texts(v@) =~= Seq::empty());
    let mut i: usize = 0;
    while i < trades.len()
        invariant
            i <= trades@.len(),
            views == trade_views(trades@),
            is_strategies(texts(v@), views, r, i as int),
        decreases trades@.len() - i,
    {
        let t: &TradeRecord = &trades[i];
        assert(views[i as int] == t@);
        let ghost before = texts(v@);
        if t.net_pnl_usdt.is_some() && t.regime == r {
            insert_text(&mut v, t.strategy.as_str());
        }
        proof {
            let after = texts(v@);
            assert forall|x: Seq<char>| #[trigger] after.contains(x) <==> exists|k: int|
                0 <= k < i + 1 && closed_in(#[trigger] views[k], r, x) by {
                if before.contains(x) {
                    let k = choose|k: int| 0 <= k < i && closed_in(#[trigger] views[k], r, x);
                    assert(closed_in(views[k], r, x));
                }
                if after.contains(x) && !before.contains(x) {
                    assert(closed_in(views[i as int], r, x));
                }
                if exists|k: int| 0 <= k < i + 1 && closed_in(#[trigger] views[k], r, x) {
                    let k = choose|k: int| 0 <= k < i + 1 && closed_in(#[trigger] views[k], r, x);
                    if k < i {
                        assert(before.contains(x));
                    }
                }
            }
        }
        i += 1;
    }
    v
}

fn count_closed(trades: &Vec<TradeRecord>, r: Regime, strategy: &str) -> (c: (usize, usize))
    ensures
        closed_count(trade_views(trades@), r, strategy@, trades@.len() as int) == (
            c.0 as int,
            c.1 as int,
        ),
        c.1 <= c.0 <= trades@.len(),
{
    let ghost views = trade_views(trades@);
    let mut n: usize = 0;
    let mut wins: usize = 0;
    let mut i: usize = 0;
    while i < trades.len()
        invariant
            i <= trades@.len(),
            views == trade_views(trades@),
            closed_count(views, r, strategy@, i as int) == (n as int, wins as int),
            wins <= n <= i,
        decreases trades@.len() - i,
    {
        let t: &TradeRecord = &trades[i];
        assert(views[i as int] == t@);
        if let Some(net) = t.net_pnl_usdt {
            if t.regime == r && same_text(t.strategy.as_str(), strategy) {
                n += 1;
                if net > 0 {
                    wins += 1;
                }
            }
        }
        i += 1;
    }
    (n, wins)
}

/// A share in percent, nothing of nothing.
pub open spec fn rate_pct(wins: int, n: int) -> int {
    if n == 0 {
        0
    } else {
        round_div(100 * wins * ONE, n)
    }
}

/// The line of a strategy in a regime.
pub open spec fn count_line_text(trades: Seq<TradeView>, r: Regime, name: Seq<char>) -> Seq<char> {
    let c = closed_count(trades, r, name, trades.len() as int);
    "\n"@ + left_text(regime_text(r), 12) + " "@ + left_text(name, 20) + " "@ + right_text(
        nat_text(c.0 as nat),
        6,
    ) + " "@ + right_text(fixed_text(rate_pct(c.1, c.0), 1), 9) + "%"@
}

/// The lines of the first `n` strategies in a regime.
pub open spec fn count_lines_text(
    trades: Seq<TradeView>,
    r: Regime,
    names: Seq<Seq<char>>,
    n: int,
) -> Seq<char>
    decreases n,
{
    if n <= 0 {
        Seq::empty()
    } else {
        count_lines_text(trades, r, names, n - 1) + count_line_text(trades, r, names[n - 1])
    }
}

/// The lines of the strategies in a regime.
pub open spec fn is_count_lines(s: Seq<char>, trades: Seq<TradeView>, r: Regime) -> bool {
    exists|names: Seq<Seq<char>>|
        is_strategies(names, trades, r, trades.len() as int) && s == #[trigger] count_lines_text(
            trades,
            r,
            names,
            names.len() as int,
        )
}

fn count_lines(trades: &Vec<TradeRecord>, r: Regime) -> (s: String)
    requires
        trades@.len() <= TRADES_MAX,
    ensures
        is_count_lines(s@, trade_views(trades@), r),
{
    let ghost views = trade_views(trades@);
    let names: Vec<String> = strategies_in(trades, r);
    let ghost list = texts(names@);
    let mut s: String = String::new();
    let mut i: usize = 0;
    while i < names.len()
        invariant
            i <= names@.len(),
            trades@.len() <= TRADES_MAX,
            views == trade_views(trades@),
            list == texts(names@),
            s@ == count_lines_text(views, r, list, i as int),
        decreases names@.len() - i,
    {
        assert(list[i as int] == names@[i as int]@);
        let (n, wins) = count_closed(trades, r, names[i].as_str());
        assert(views.len() == trades@.len());
        let pct: i128 = if n == 0 {
            0
        } else {
            div_round(100 * wins as i128 * ONE, n as i128)
        };
        let mut line: String = String::from_str("\n");
        line.append(left_string(r.name(), 12).as_str());
        line.append(" ");
        line.append(left_string(names[i].as_str(), 20).as_str());
        line.append(" ");
        line.append(right_string(u64_string(n as u64).as_str(), 6).as_str());
        line.append(" ");
        line.append(right_string(fixed_string(pct, 1).as_str(), 9).as_str());
        line.append("%");
        s.append(line.as_str());
        i += 1;
    }
    assert(views.len() == trades@.len());
    assert(s@ == count_lines_text(views, r, list, list.len() as int));
    s
}

/// The head of the table of regimes and strategies.
pub open spec fn count_head_text(n: nat) -> Seq<char> {
    "\n=== Trade counts by regime x strategy (n="@ + nat_text(n)
        + ") ===\nregime       strategy                  n   win_rate"@
}

/// The table of the closed trades of each regime and strategy.
pub open spec fn is_count_table(s: Seq<char>, trades: Seq<TradeView>) -> bool {
    exists|a: Seq<char>, b: Seq<char>, c: Seq<char>, d: Seq<char>|
        #![trigger count_parts(a, b, c, d)]
        is_count_lines(a, trades, Regime::Illiquid) && is_count_lines(b, trades, Regime::Ranging)
            && is_count_lines(c, trades, Regime::Trending) && is_count_lines(
            d,
            trades,
            Regime::Volatile,
        ) && s == count_head_text(trades.len()) + count_parts(a, b, c, d)
}

/// The parts of the table, in the alphabetical order of the regimes.
pub open spec fn count_parts(a: Seq<char>, b: Seq<char>, c: Seq<char>, d: Seq<char>) -> Seq<char> {
    a + b + c + d
}

/// Counts the closed trades of each regime and strategy. Too few of them say
/// nothing.
pub fn count_table(trades: &Vec<TradeRecord>) -> (s: String)
    requires
        trades@.len() <= TRADES_MAX,
    ensures
        is_count_table(s@, trade_views(trades@)),
{
    let a: String = count_lines(trades, Regime::Illiquid);
    let b: String = count_lines(trades, Regime::Ranging);
    let c: String = count_lines(trades, Regime::Trending);
    let d: String = count_lines(trades, Regime::Volatile);
    let mut lines: String = String::from_str(a.as_str());
    lines.append(b.as_str());
    lines.append(c.as_str());
    lines.append(d.as_str());
    let mut s: String = String::from_str("\n=== Trade counts by regime x strategy (n=");
    s.append(u64_string(trades.len() as u64).as_str());
    s.append(") ===\nregime       strategy                  n   win_rate");
    s.append(lines.as_str());
    proof {
        assert(trade_views(trades@).len() == trades@.len());
        assert(s@ == count_head_text(trade_views(trades@).len()) + count_parts(a@, b@, c@, d@));
    }
    s
}

/// The ranges of a table leave nothing out: each trade that counts for its strategy is in one of
/// them, and the ranges are as many as their names.
pub proof fn law_each_trade_is_in_a_range(t: Table, x: TradeView)
    requires
        belongs(x, t.everyone()),
    ensures
        t.names().len() == t.cuts().len() + 1,
        exists|i: int| 0 <= i < t.names().len() && #[trigger] belongs(x, t.in_range(i)),
        belongs(x, t.between(None, Some(1i128))) <==> feature_of(x.features, t.feature_spec()) <= 0,
        belongs(x, t.between(Some(1i128), None)) <==> feature_of(x.features, t.feature_spec()) > 0,
        belongs(x, t.between(None, None)),
{
    let v = feature_of(x.features, t.feature_spec());
    let c = t.cuts();
    let n = c.len() as int;
    let i = if v < c[0] {
        0int
    } else if v < c[1] {
        1
    } else if v < c[2] {
        2
    } else if v < c[3] {
        3
    } else if n == 4 || v < c[4] {
        4
    } else if n == 5 || v < c[5] {
        5
    } else {
        6
    };
    assert(belongs(x, t.in_range(i)));
}

/// One more trade counts once for its regime and strategy where it was closed, as a win where it
/// earned something.
pub proof fn law_closed_trades_are_counted(
    trades: Seq<TradeView>,
    r: Regime,
    strategy: Seq<char>,
    t: TradeView,
)
    ensures
        ({
            let n = trades.len() as int;
            let c = closed_count(trades, r, strategy, n);
            let d = closed_count(trades.push(t), r, strategy, n + 1);
            let here = t.net_pnl_usdt is Some && t.regime == r && t.strategy == strategy;
            &&& here ==> d.0 == c.0 + 1
            &&& here && t.net_pnl_usdt->0 > 0 ==> d.1 == c.1 + 1
            &&& here && t.net_pnl_usdt->0 <= 0 ==> d.1 == c.1
            &&& !here ==> d == c
        }),
        closed_count(Seq::empty(), r, strategy, 0) == (0int, 0int),
{
    lemma_count_prefix(trades, trades.push(t), r, strategy, trades.len() as int);
}

proof fn lemma_count_prefix(
    a: Seq<TradeView>,
    b: Seq<TradeView>,
    r: Regime,
    strategy: Seq<char>,
    n: int,
)
    requires
        0 <= n <= a.len(),
        n <= b.len(),
        forall|i: int| 0 <= i < n ==> a[i] == #[trigger] b[i],
    ensures
        closed_count(a, r, strategy, n) == closed_count(b, r, strategy, n),
    decreases n,
{
    if n > 0 {
        lemma_count_prefix(a, b, r, strategy, n - 1);
        assert(a[n - 1] == b[n - 1]);
    }
}

/// A win rate in percent is a hundred times the wins over the trades, to half a step.
pub proof fn law_rate_is_of_the_trades(wins: int, n: int)
    requires
        n >= 0,
    ensures
        n > 0 ==> -n <= 2 * (rate_pct(wins, n) * n - 100 * wins * ONE) <= n,
        n == 0 ==> rate_pct(wins, n) == 0,
{
    if n > 0 {
        crate::fixed::lemma_round_div_error(100 * wins * ONE, n);
    }
}

} // verus!
