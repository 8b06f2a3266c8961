//! A run of the bot, from its first line to its last.
use crate::execution::Mode;
use crate::log_say::{decision_text, say_decision_with_reason, say_end};
use crate::pipeline::CoreOutcome;
use crate::regime::Regime;
use crate::text::{nat_text, trim_text, trimmed, u64_string};
use vstd::prelude::*;

verus! {

/// What a run works with.
#[derive(Clone, Debug)]
pub struct AppConfig {
    pub base_url: String,
    pub symbol: String,
    pub state_path: String,
    pub data_dir: String,
    pub candle_cache_max_age_ms: u64,
    pub api_key: String,
    pub api_secret: String,
}

/// What became of a run.
#[derive(Clone, Copy, Debug, PartialEq, Eq, Structural)]
pub struct RunOutcome {
    pub did_place_order: bool,
    pub mode: Mode,
    pub regime: Regime,
}

/// The outcome of a run that did not reach the exchange.
pub fn unreachable_exchange(mode: Mode) -> (r: RunOutcome)
    ensures
        r == (RunOutcome { did_place_order: false, mode, regime: Regime::Ranging }),
{
    RunOutcome { did_place_order: false, mode, regime: Regime::Ranging }
}

/// The name of a run.
pub open spec fn run_id_text(now_ms: u64, seq: u64) -> Seq<char> {
    "run-"@ + nat_text(now_ms as nat) + "-"@ + nat_text(seq as nat)
}

/// Names a run after the time and a counter, which then goes on.
pub fn new_run_id(seq: &mut u64, now_ms: u64) -> (s: String)
    ensures
        s@ == run_id_text(now_ms, *old(seq)),
        *final(seq) == vstd::wrapping::u64_specs::wrapping_add(*old(seq), 1),
{
    let mut s: String = String::from_str("run-");
    s.append(u64_string(now_ms).as_str());
    s.append("-");
    s.append(u64_string(*seq).as_str());
    *seq = (*seq).wrapping_add(1);
    s
}

/// The address that tells whether the exchange answers.
pub fn ping_url(base_url: &str) -> (s: String)
    ensures
        s@ == base_url@ + "/api/v3/ping"@,
{
    let mut s: String = String::from_str(base_url);
    s.append("/api/v3/ping");
    s
}

/// What a run says at its end, whatever happened in between.
#[derive(Debug)]
pub struct RunGuard {
    pub decision: String,
    pub reason: String,
    pub end: String,
    pub mode: Mode,
    pub emit_decision: bool,
}

impl RunGuard {
    /// The words of a run that did nothing yet.
    pub fn new(mode: Mode) -> (g: RunGuard)
        ensures
            g.decision@ == "WAIT"@,
            g.reason@ == Seq::<char>::empty(),
            g.end@ == "no money moved"@,
            g.mode == mode,
            !g.emit_decision,
    {
        RunGuard {
            decision: String::from_str("WAIT"),
            reason: String::new(),
            end: String::from_str("no money moved"),
            mode,
            emit_decision: false,
        }
    }

    /// From here on the run has a decision to tell.
    pub fn enable_decision(&mut self)
        ensures
            *final(self) == (RunGuard { emit_decision: true, ..*old(self) }),
    {
        self.emit_decision = true;
    }

    /// Sets the decision.
    pub fn set_decision(&mut self, decision: &str)
        ensures
            final(self).decision@ == trimmed(decision@),
            *final(self) == (RunGuard { decision: final(self).decision, ..*old(self) }),
    {
        self.decision = trim_text(decision);
    }

    /// Sets the reason.
    pub fn set_reason(&mut self, reason: &str)
        ensures
            final(self).reason@ == trimmed(reason@),
            *final(self) == (RunGuard { reason: final(self).reason, ..*old(self) }),
    {
        self.reason = trim_text(reason);
    }

    /// Sets the end.
    pub fn set_end(&mut self, end: &str)
        ensures
            final(self).end@ == trimmed(end@),
            *final(self) == (RunGuard { end: final(self).end, ..*old(self) }),
    {
        self.end = trim_text(end);
    }

    /// Takes over what the run came to.
    pub fn take_outcome(&mut self, out: &CoreOutcome) -> (r: RunOutcome)
        ensures
            final(self).decision@ == trimmed(out.decision@),
            final(self).reason@ == trimmed(out.reason@),
            final(self).end@ == trimmed(out.end@),
            final(self).mode == old(self).mode,
            final(self).emit_decision == old(self).emit_decision,
            r == (RunOutcome {
                did_place_order: out.did_place_order,
                mode: out.mode,
                regime: out.regime,
            }),
    {
        self.set_decision(out.decision.as_str());
        self.set_reason(out.reason.as_str());
        self.set_end(out.end.as_str());
        RunOutcome { did_place_order: out.did_place_order, mode: out.mode, regime: out.regime }
    }

    /// The line of the decision; none where the exchange was not reached.
    pub fn decision_line(&self) -> (s: Option<String>)
        ensures
            s is Some <==> self.emit_decision,
            s is Some ==> s->0@ == decision_text(self.mode, self.decision@, self.reason@),
    {
        if self.emit_decision {
            Some(say_decision_with_reason(self.mode, self.decision.as_str(), self.reason.as_str()))
        } else {
            None
        }
    }

    /// The last line.
    pub fn end_line(&self) -> (s: String)
        ensures
            s@ == "End: "@ + trimmed(self.end@),
    {
        say_end(self.end.as_str())
    }
}

} // verus!
