//! The start of a run: what is looked at before anything is decided, and in which order
//! a run ends early.
use crate::pipeline::EarlyEnd;
use crate::regime::Regime;
use vstd::prelude::*;

verus! {

/// Where the start of a run stands.
#[derive(Clone, Copy, Debug, PartialEq, Eq, Structural)]
pub enum StartPhase {
    /// Nothing was asked yet.
    Begin,
    /// The account was asked for.
    Account,
    /// The market was asked for, with a wallet or without one.
    Market { wallet: bool },
    /// The books were asked for.
    Books { regime: Regime },
    /// There is nothing left to ask.
    Over,
}

/// The outcome of what was asked for.
#[derive(Clone, Copy, Debug, PartialEq, Eq, Structural)]
pub enum StartEvent {
    /// The state was read, and says whether the account may be asked.
    Opened { may_ask: bool },
    /// The wallet was read.
    Wallet,
    /// The exchange refused the key.
    Refused,
    /// The candles were read, and are too few for the indicators.
    NoHistory,
    /// The market was read.
    Market { regime: Regime },
    /// The day was opened, and the bot is dead.
    Dead,
    /// The day was opened.
    Alive,
    /// Something went wrong.
    Failed,
}

/// What comes next.
#[derive(Clone, Copy, Debug, PartialEq, Eq, Structural)]
pub enum StartAsk {
    /// Ask for the wallet.
    Account,
    /// Read the market, with the rules of the symbol or without them.
    Market { with_rules: bool },
    /// Read the books and open the day.
    Books,
    /// The run ends early. The regime is there where the market was read.
    End { regime: Option<Regime>, end: EarlyEnd },
    /// The run decides what to do.
    Run,
    /// The run fails with the last error.
    Fail,
}

/// The next phase, and what comes next. A refused key comes before a lack of history, a
/// lack of history before a missing wallet, and a missing wallet before a dead bot.
pub open spec fn next_start(p: StartPhase, e: StartEvent) -> (StartPhase, StartAsk) {
    match (p, e) {
        (StartPhase::Begin, StartEvent::Opened { may_ask }) => if may_ask {
            (StartPhase::Account, StartAsk::Account)
        } else {
            (StartPhase::Market { wallet: false }, StartAsk::Market { with_rules: false })
        },
        (StartPhase::Account, StartEvent::Wallet) => (
            StartPhase::Market { wallet: true },
            StartAsk::Market { with_rules: true },
        ),
        (StartPhase::Account, StartEvent::Refused) => (
            StartPhase::Over,
            StartAsk::End { regime: None, end: EarlyEnd::KeyRefused },
        ),
        (StartPhase::Market { .. }, StartEvent::NoHistory) => (
            StartPhase::Over,
            StartAsk::End { regime: None, end: EarlyEnd::NoHistory },
        ),
        (StartPhase::Market { wallet }, StartEvent::Market { regime }) => if wallet {
            (StartPhase::Books { regime }, StartAsk::Books)
        } else {
            (StartPhase::Over, StartAsk::End { regime: Some(regime), end: EarlyEnd::NoWallet })
        },
        (StartPhase::Books { regime }, StartEvent::Dead) => (
            StartPhase::Over,
            StartAsk::End { regime: Some(regime), end: EarlyEnd::Dead },
        ),
        (StartPhase::Books { .. }, StartEvent::Alive) => (StartPhase::Over, StartAsk::Run),
        _ => (StartPhase::Over, StartAsk::Fail),
    }
}

/// Takes the outcome of what was asked for and says what comes next. See
/// [`next_start`].
pub fn start_step(p: StartPhase, e: StartEvent) -> (r: (StartPhase, StartAsk))
    ensures
        r == next_start(p, e),
{
    match (p, e) {
        (StartPhase::Begin, StartEvent::Opened { may_ask }) => {
            if may_ask {
                (StartPhase::Account, StartAsk::Account)
            } else {
                (StartPhase::Market { wallet: false }, StartAsk::Market { with_rules: false })
            }
        },
        (StartPhase::Account, StartEvent::Wallet) => (
            StartPhase::Market { wallet: true },
            StartAsk::Market { with_rules: true },
        ),
        (StartPhase::Account, StartEvent::Refused) => (
            StartPhase::Over,
            StartAsk::End { regime: None, end: EarlyEnd::KeyRefused },
        ),
        (StartPhase::Market { .. }, StartEvent::NoHistory) => (
            StartPhase::Over,
            StartAsk::End { regime: None, end: EarlyEnd::NoHistory },
        ),
        (StartPhase::Market { wallet }, StartEvent::Market { regime }) => {
            if wallet {
                (StartPhase::Books { regime }, StartAsk::Books)
            } else {
                (StartPhase::Over, StartAsk::End { regime: Some(regime), end: EarlyEnd::NoWallet })
            }
        },
        (StartPhase::Books { regime }, StartEvent::Dead) => (
            StartPhase::Over,
            StartAsk::End { regime: Some(regime), end: EarlyEnd::Dead },
        ),
        (StartPhase::Books { .. }, StartEvent::Alive) => (StartPhase::Over, StartAsk::Run),
        _ => (StartPhase::Over, StartAsk::Fail),
    }
}

/// The phase after a series of events.
pub open spec fn phase_after(events: Seq<StartEvent>) -> StartPhase
    decreases events.len(),
{
    if events.len() == 0 {
        StartPhase::Begin
    } else {
        next_start(phase_after(events.drop_last()), events.last()).0
    }
}

/// What comes next after a series of events.
pub open spec fn ask_after(events: Seq<StartEvent>) -> StartAsk
    recommends
        events.len() > 0,
{
    next_start(phase_after(events.drop_last()), events.last()).1
}

/// Each phase is reached by one series of events, but for the regime that was read.
proof fn lemma_way_to(events: Seq<StartEvent>)
    ensures
        match phase_after(events) {
            StartPhase::Begin => events.len() == 0,
            StartPhase::Account => events == seq![StartEvent::Opened { may_ask: true }],
            StartPhase::Market { wallet } => if wallet {
                events == seq![StartEvent::Opened { may_ask: true }, StartEvent::Wallet]
            } else {
                events == seq![StartEvent::Opened { may_ask: false }]
            },
            StartPhase::Books { regime } => events == seq![
                StartEvent::Opened { may_ask: true },
                StartEvent::Wallet,
                StartEvent::Market { regime },
            ],
            StartPhase::Over => true,
        },
    decreases events.len(),
{
    if events.len() > 0 {
        let before = events.drop_last();
        lemma_way_to(before);
        assert(events =~= before.push(events.last()));
        match phase_after(events) {
            StartPhase::Account => {
                assert(events =~= seq![StartEvent::Opened { may_ask: true }]);
            },
            StartPhase::Market { wallet } => {
                if wallet {
                    assert(events =~= seq![
                        StartEvent::Opened { may_ask: true },
                        StartEvent::Wallet,
                    ]);
                } else {
                    assert(events =~= seq![StartEvent::Opened { may_ask: false }]);
                }
            },
            StartPhase::Books { regime } => {
                assert(events =~= seq![
                    StartEvent::Opened { may_ask: true },
                    StartEvent::Wallet,
                    StartEvent::Market { regime },
                ]);
            },
            _ => {},
        }
    }
}

/// A run decides only after it has read the wallet, the market and the books of a bot that
/// is alive, in this order.
pub proof fn law_run_has_seen_everything(events: Seq<StartEvent>)
    requires
        events.len() > 0,
        ask_after(events) == StartAsk::Run,
    ensures
        events.len() == 4,
        events[0] == (StartEvent::Opened { may_ask: true }),
        events[1] == StartEvent::Wallet,
        events[2] is Market,
        events[3] == StartEvent::Alive,
{
    lemma_way_to(events.drop_last());
}

/// The early ends come in one order: the key is refused before the market is read, the
/// history is missing before the wallet is, and the bot is found dead only where all of
/// that was there.
pub proof fn law_early_ends_come_in_order(events: Seq<StartEvent>)
    requires
        events.len() > 0,
        ask_after(events) is End,
    ensures
        match ask_after(events)->end {
            EarlyEnd::KeyRefused => events == seq![
                StartEvent::Opened { may_ask: true },
                StartEvent::Refused,
            ],
            EarlyEnd::NoHistory => events == seq![
                StartEvent::Opened { may_ask: true },
                StartEvent::Wallet,
                StartEvent::NoHistory,
            ] || events == seq![StartEvent::Opened { may_ask: false }, StartEvent::NoHistory],
            EarlyEnd::NoWallet => ask_after(events)->regime is Some && events == seq![
                StartEvent::Opened { may_ask: false },
                StartEvent::Market { regime: ask_after(events)->regime->0 },
            ],
            EarlyEnd::Dead => ask_after(events)->regime is Some && events == seq![
                StartEvent::Opened { may_ask: true },
                StartEvent::Wallet,
                StartEvent::Market { regime: ask_after(events)->regime->0 },
                StartEvent::Dead,
            ],
        },
{
    let before = events.drop_last();
    lemma_way_to(before);
    assert(events =~= before.push(events.last()));
    match ask_after(events)->end {
        EarlyEnd::KeyRefused => {
            assert(events =~= seq![StartEvent::Opened { may_ask: true }, StartEvent::Refused]);
        },
        EarlyEnd::NoHistory => {
            if phase_after(before) == (StartPhase::Market { wallet: true }) {
                assert(events =~= seq![
                    StartEvent::Opened { may_ask: true },
                    StartEvent::Wallet,
                    StartEvent::NoHistory,
                ]);
            } else {
                assert(events =~= seq![
                    StartEvent::Opened { may_ask: false },
                    StartEvent::NoHistory,
                ]);
            }
        },
        EarlyEnd::NoWallet => {
            assert(events =~= seq![
                StartEvent::Opened { may_ask: false },
                StartEvent::Market { regime: ask_after(events)->regime->0 },
            ]);
        },
        EarlyEnd::Dead => {
            assert(events =~= seq![
                StartEvent::Opened { may_ask: true },
                StartEvent::Wallet,
                StartEvent::Market { regime: ask_after(events)->regime->0 },
                StartEvent::Dead,
            ]);
        },
    }
}

} // verus!
