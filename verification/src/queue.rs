//! What a bounded queue answers to a send that must not wait.
use vstd::prelude::*;

verus! {

/// The outcome of `try_send` on a bounded channel.
#[derive(Debug, Clone, Copy, PartialEq, Eq, Structural)]
pub enum TrySendOutcome {
    /// The item was queued.
    Sent,
    /// The queue was full; the item was dropped.
    Full,
    /// The receiving side is gone.
    Closed,
}

/// Which counter a send outcome bumps.
#[derive(Debug, Clone, Copy, PartialEq, Eq, Structural)]
pub enum SendCounter {
    Accepted,
    Dropped,
    Nothing,
}

/// Queued items count as accepted, dropped items as dropped, and a closed
/// queue counts nothing.
pub fn send_counter(outcome: TrySendOutcome) -> (r: SendCounter)
    ensures
        outcome == TrySendOutcome::Sent ==> r == SendCounter::Accepted,
        outcome == TrySendOutcome::Full ==> r == SendCounter::Dropped,
        outcome == TrySendOutcome::Closed ==> r == SendCounter::Nothing,
{
    match outcome {
        TrySendOutcome::Sent => SendCounter::Accepted,
        TrySendOutcome::Full => SendCounter::Dropped,
        TrySendOutcome::Closed => SendCounter::Nothing,
    }
}

} // verus!
