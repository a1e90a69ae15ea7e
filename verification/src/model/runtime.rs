//! The counters of the model runtime and how each queued context and each
//! decision changes them.
use vstd::prelude::*;

use crate::model::types::{ModelAction, ModelDecision};
use crate::queue::TrySendOutcome;
use crate::text::string_of;

verus! {

/// Errors of the model runtime's queue.
#[derive(Debug, Clone, Copy, PartialEq, Eq, Structural)]
pub enum ModelRuntimeError {
    QueueFull,
    QueueClosed,
}

impl ModelRuntimeError {
    /// The error message.
    pub fn message(&self) -> (r: String)
        ensures
            r@ == match self {
                ModelRuntimeError::QueueFull => "model runtime queue is full"@,
                ModelRuntimeError::QueueClosed => "model runtime queue is closed"@,
            },
    {
        match self {
            ModelRuntimeError::QueueFull => string_of("model runtime queue is full"),
            ModelRuntimeError::QueueClosed => string_of("model runtime queue is closed"),
        }
    }
}

/// `b`'s decision counters follow from `a`'s by recording `decision`: one
/// more processed, and one more candidate, no-trade or (for no decision)
/// failure.
pub open spec fn decision_recorded(a: ModelRuntimeSnapshot, b: ModelRuntimeSnapshot, decision: Option<ModelDecision>) -> bool {
    &&& b.processed == a.processed + 1
    &&& b.candidates == a.candidates + (if decision matches Some(d) && d.action == ModelAction::Candidate {
        1int
    } else {
        0
    })
    &&& b.no_trades == a.no_trades + (if decision matches Some(d) && d.action == ModelAction::NoTrade {
        1int
    } else {
        0
    })
    &&& b.failed == a.failed + (if decision is None {
        1int
    } else {
        0
    })
}

/// `b`'s decision counters are `a`'s (an enqueue was recorded).
pub open spec fn decisions_kept(a: ModelRuntimeSnapshot, b: ModelRuntimeSnapshot) -> bool {
    b.processed == a.processed && b.candidates == a.candidates && b.no_trades == a.no_trades
        && b.failed == a.failed
}

/// Every context the runtime processed is counted once, as a candidate, a
/// no-trade or a failure: along a run from fresh counters in which each step
/// records an enqueue or a decision, `processed == candidates + no_trades +
/// failed` holds in every snapshot.
pub proof fn runtime_balance_law(snaps: Seq<ModelRuntimeSnapshot>, decisions: Seq<Option<ModelDecision>>)
    requires
        snaps.len() == decisions.len() + 1,
        snaps[0].processed == 0 && snaps[0].candidates == 0 && snaps[0].no_trades == 0
            && snaps[0].failed == 0,
        forall|t: int|
            0 <= t < decisions.len() ==> decision_recorded(#[trigger] snaps[t], snaps[t + 1], decisions[t])
                || decisions_kept(snaps[t], snaps[t + 1]),
    ensures
        forall|t: int|
            0 <= t < snaps.len() ==> (#[trigger] snaps[t]).processed == snaps[t].candidates
                + snaps[t].no_trades + snaps[t].failed,
    decreases decisions.len(),
{
    if decisions.len() > 0 {
        let n = decisions.len() as int;
        runtime_balance_law(snaps.drop_last(), decisions.drop_last());
        assert(snaps.drop_last()[n - 1] == snaps[n - 1]);
        assert(decision_recorded(snaps[n - 1], snaps[n], decisions[n - 1]) || decisions_kept(
            snaps[n - 1],
            snaps[n],
        ));
        assert forall|t: int| 0 <= t < snaps.len() implies (#[trigger] snaps[t]).processed
            == snaps[t].candidates + snaps[t].no_trades + snaps[t].failed by {
            if t < n {
                assert(snaps.drop_last()[t] == snaps[t]);
            }
        }
    }
}

/// Counters of the model runtime and its last decision.
#[derive(Debug)]
pub struct ModelRuntimeSnapshot {
    pub accepted: u64,
    pub dropped: u64,
    pub processed: u64,
    pub candidates: u64,
    pub no_trades: u64,
    pub failed: u64,
    pub last_action: Option<ModelAction>,
    pub last_decision: Option<ModelDecision>,
}

impl ModelRuntimeSnapshot {
    /// All counters at zero, no decision yet.
    pub fn new() -> (r: ModelRuntimeSnapshot)
        ensures
            r.accepted == 0 && r.dropped == 0 && r.processed == 0 && r.candidates == 0 && r.no_trades
                == 0 && r.failed == 0,
            r.last_action is None,
            r.last_decision is None,
    {
        ModelRuntimeSnapshot {
            accepted: 0,
            dropped: 0,
            processed: 0,
            candidates: 0,
            no_trades: 0,
            failed: 0,
            last_action: None,
            last_decision: None,
        }
    }

    /// Records the answer of the queue to an enqueue: a queued context counts
    /// as accepted, a full queue drops it, a closed queue counts nothing.
    pub fn record_enqueue(&mut self, outcome: TrySendOutcome) -> (r: Result<(), ModelRuntimeError>)
        requires
            old(self).accepted < u64::MAX,
            old(self).dropped < u64::MAX,
        ensures
            final(self).accepted == old(self).accepted + (if outcome == TrySendOutcome::Sent {
                1int
            } else {
                0
            }),
            final(self).dropped == old(self).dropped + (if outcome == TrySendOutcome::Full {
                1int
            } else {
                0
            }),
            final(self).processed == old(self).processed,
            final(self).candidates == old(self).candidates,
            final(self).no_trades == old(self).no_trades,
            final(self).failed == old(self).failed,
            final(self).last_action == old(self).last_action,
            final(self).last_decision == old(self).last_decision,
            outcome == TrySendOutcome::Sent <==> r is Ok,
            outcome == TrySendOutcome::Full ==> r == Err::<(), ModelRuntimeError>(ModelRuntimeError::QueueFull),
            outcome == TrySendOutcome::Closed ==> r == Err::<(), ModelRuntimeError>(
                ModelRuntimeError::QueueClosed,
            ),
    {
        match outcome {
            TrySendOutcome::Sent => {
                self.accepted = self.accepted + 1;
                Ok(())
            },
            TrySendOutcome::Full => {
                self.dropped = self.dropped + 1;
                Err(ModelRuntimeError::QueueFull)
            },
            TrySendOutcome::Closed => Err(ModelRuntimeError::QueueClosed),
        }
    }

    /// Records one processed context: its decision, or a failure when no
    /// model was registered for its assignment.
    pub fn record_decision(&mut self, decision: Option<ModelDecision>)
        requires
            old(self).processed < u64::MAX,
            old(self).candidates < u64::MAX,
            old(self).no_trades < u64::MAX,
            old(self).failed < u64::MAX,
        ensures
            decision_recorded(*old(self), *final(self), decision),
            final(self).processed == old(self).processed + 1,
            old(self).candidates + old(self).no_trades + old(self).failed == old(self).processed
                ==> final(self).candidates + final(self).no_trades + final(self).failed
                == final(self).processed,
            final(self).accepted == old(self).accepted,
            final(self).dropped == old(self).dropped,
            match decision {
                Some(d) => {
                    &&& final(self).last_action == Some(d.action)
                    &&& final(self).last_decision == Some(d)
                    &&& final(self).candidates == old(self).candidates + (if d.action
                        == ModelAction::Candidate {
                        1int
                    } else {
                        0
                    })
                    &&& final(self).no_trades == old(self).no_trades + (if d.action
                        == ModelAction::NoTrade {
                        1int
                    } else {
                        0
                    })
                    &&& final(self).failed == old(self).failed
                },
                None => {
                    &&& final(self).failed == old(self).failed + 1
                    &&& final(self).last_action is None
                    &&& final(self).last_decision is None
                    &&& final(self).candidates == old(self).candidates
                    &&& final(self).no_trades == old(self).no_trades
                },
            },
    {
        self.processed = self.processed + 1;
        match decision {
            Some(decision) => {
                self.last_action = Some(decision.action);
                match decision.action {
                    ModelAction::Candidate => self.candidates = self.candidates + 1,
                    ModelAction::NoTrade => self.no_trades = self.no_trades + 1,
                }
                self.last_decision = Some(decision);
            },
            None => {
                self.failed = self.failed + 1;
                self.last_action = None;
                self.last_decision = None;
            },
        }
    }
}

} // verus!
