//! The counters of the realtime bus and what a publish answers.
use vstd::prelude::*;

use crate::queue::TrySendOutcome;
use crate::realtime::types::RealtimeError;

verus! {

/// What the bus reports: queue size and room, and its counters.
#[derive(Debug, Clone, Copy, PartialEq, Eq, Structural)]
pub struct RealtimeBusSnapshot {
    pub queued_capacity: usize,
    pub queued_available: usize,
    pub accepted: u64,
    pub dropped: u64,
}

/// The bus's counters.
#[derive(Debug, Clone, Copy, PartialEq, Eq, Structural)]
pub struct RealtimeBusMetrics {
    pub accepted: u64,
    pub dropped: u64,
}

impl RealtimeBusMetrics {
    /// Both counters at zero.
    pub fn new() -> (r: RealtimeBusMetrics)
        ensures
            r == (RealtimeBusMetrics { accepted: 0, dropped: 0 }),
    {
        RealtimeBusMetrics { accepted: 0, dropped: 0 }
    }

    /// Records the answer of the queue to a publish: a queued event counts as
    /// accepted, a full queue drops it and answers `QueueFull`, a closed queue
    /// answers `QueueClosed`.
    pub fn record_publish(&mut self, outcome: TrySendOutcome) -> (r: Result<(), RealtimeError>)
        requires
            old(self).accepted < u64::MAX,
            old(self).dropped < u64::MAX,
        ensures
            final(self).accepted == old(self).accepted + (if outcome == TrySendOutcome::Sent {
                1int
            } else {
                0
            }),
            final(self).dropped == old(self).dropped + (if outcome == TrySendOutcome::Full {
                1int
            } else {
                0
            }),
            outcome == TrySendOutcome::Sent <==> r is Ok,
            outcome == TrySendOutcome::Full ==> r == Err::<(), RealtimeError>(RealtimeError::QueueFull),
            outcome == TrySendOutcome::Closed ==> r == Err::<(), RealtimeError>(RealtimeError::QueueClosed),
    {
        match outcome {
            TrySendOutcome::Sent => {
                self.accepted = self.accepted + 1;
                Ok(())
            },
            TrySendOutcome::Full => {
                self.dropped = self.dropped + 1;
                Err(RealtimeError::QueueFull)
            },
            TrySendOutcome::Closed => Err(RealtimeError::QueueClosed),
        }
    }

    /// The snapshot the bus reports.
    pub fn snapshot(&self, capacity: usize, available: usize) -> (r: RealtimeBusSnapshot)
        ensures
            r == (RealtimeBusSnapshot {
                queued_capacity: capacity,
                queued_available: available,
                accepted: self.accepted,
                dropped: self.dropped,
            }),
    {
        RealtimeBusSnapshot {
            queued_capacity: capacity,
            queued_available: available,
            accepted: self.accepted,
            dropped: self.dropped,
        }
    }
}

} // verus!
