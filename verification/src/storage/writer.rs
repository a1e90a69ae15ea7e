//! The decisions of the storage writer: what an enqueue answers, how many
//! times a write is tried, and the counters it keeps.
use vstd::prelude::*;

use crate::queue::TrySendOutcome;
use crate::text::{push_str, string_of};

verus! {

/// How many times a command is written before it counts as failed.
pub const MAX_WRITE_ATTEMPTS: u8 = 3;

/// Errors of storage.
#[derive(Debug, Clone, PartialEq, Eq)]
pub enum StorageError {
    Database(String),
    QueueFull,
    WriterClosed,
    InvalidInput(String),
}

impl StorageError {
    /// The error message.
    pub open spec fn message_spec(self) -> Seq<char> {
        match self {
            StorageError::Database(m) => "database error: "@ + m@,
            StorageError::QueueFull => "storage queue is full"@,
            StorageError::WriterClosed => "storage writer is closed"@,
            StorageError::InvalidInput(m) => "invalid storage input: "@ + m@,
        }
    }

    /// The error message (`Display`).
    pub fn message(&self) -> (r: String)
        ensures
            r@ == self.message_spec(),
    {
        match self {
            StorageError::Database(m) => {
                let mut s = string_of("database error: ");
                push_str(&mut s, m.as_str());
                s
            },
            StorageError::QueueFull => string_of("storage queue is full"),
            StorageError::WriterClosed => string_of("storage writer is closed"),
            StorageError::InvalidInput(m) => {
                let mut s = string_of("invalid storage input: ");
                push_str(&mut s, m.as_str());
                s
            },
        }
    }
}

/// What the writer reports: queue size and room, whether its task runs, and
/// its counters.
#[derive(Debug, Clone, Copy)]
pub struct StorageWriterSnapshot {
    pub queued_capacity: usize,
    pub queued_available: usize,
    pub task_status: &'static str,
    pub accepted: u64,
    pub dropped: u64,
    pub written: u64,
    pub failed: u64,
    pub retried: u64,
}

/// The writer's counters.
#[derive(Debug, Clone, Copy, PartialEq, Eq, Structural)]
pub struct StorageWriterMetrics {
    pub accepted: u64,
    pub dropped: u64,
    pub written: u64,
    pub failed: u64,
    pub retried: u64,
}

/// What follows a write attempt.
#[derive(Debug, Clone, Copy, PartialEq, Eq, Structural)]
pub enum WriteStep {
    /// The command was written.
    Written,
    /// The last attempt failed; the command is given up.
    Failed,
    /// Wait `delay_ms` and try again as attempt `next_attempt`.
    Retry { next_attempt: u8, delay_ms: u64 },
}

/// `r` follows write attempt `attempt` that succeeded when `ok`.
pub open spec fn write_step_of(attempt: u8, ok: bool, r: WriteStep) -> bool {
    &&& ok ==> r == WriteStep::Written
    &&& !ok && attempt >= MAX_WRITE_ATTEMPTS ==> r == WriteStep::Failed
    &&& !ok && attempt < MAX_WRITE_ATTEMPTS ==> r == (WriteStep::Retry {
        next_attempt: (attempt + 1) as u8,
        delay_ms: (25 * (attempt + 1)) as u64,
    })
}

/// A command is tried at most three times: along a run of attempts `1, 2, ...`
/// in which every step but the last retries, the run is at most three long and
/// every attempt but the last failed; when the last step ends the run, it is
/// either written (its attempt succeeded) or failed (the third attempt
/// failed), so exactly one of the written and failed counters rises, and the
/// retried counter rises once per step before it.
pub proof fn write_run_law(oks: Seq<bool>, steps: Seq<WriteStep>)
    requires
        0 < steps.len() == oks.len() <= 255,
        forall|i: int| 0 <= i < steps.len() ==> write_step_of((i + 1) as u8, #[trigger] oks[i], steps[i]),
        forall|i: int| 0 <= i < steps.len() - 1 ==> #[trigger] steps[i] is Retry,
    ensures
        steps.len() <= MAX_WRITE_ATTEMPTS,
        forall|i: int| 0 <= i < steps.len() - 1 ==> !#[trigger] oks[i],
        !(steps.last() is Retry) ==> (steps.last() == WriteStep::Written <==> oks.last())
            && (steps.last() == WriteStep::Failed <==> !oks.last() && steps.len()
            == MAX_WRITE_ATTEMPTS),
        steps.len() == MAX_WRITE_ATTEMPTS ==> !(steps.last() is Retry),
{
    let n = steps.len();
    assert forall|i: int| 0 <= i < n - 1 implies !#[trigger] oks[i] && i + 1 < MAX_WRITE_ATTEMPTS by {
        assert(write_step_of((i + 1) as u8, oks[i], steps[i]));
        assert(((i + 1) as u8) as int == i + 1);
    }
    if n > 1 {
        assert(write_step_of((n - 1) as u8, oks[n - 2], steps[n - 2]));
        assert(steps[n - 2] is Retry);
        assert(((n - 1) as u8) as int == n - 1);
    }
    assert(write_step_of(n as u8, oks[n - 1], steps[n - 1]));
    assert((n as u8) as int == n);
}

/// After attempt `attempt` (from 1): a success is written, a failure at the
/// last attempt fails, else the next attempt follows after 25 ms times its
/// number.
pub fn after_write_attempt(attempt: u8, ok: bool) -> (r: WriteStep)
    requires
        1 <= attempt <= MAX_WRITE_ATTEMPTS,
    ensures
        write_step_of(attempt, ok, r),
{
    if ok {
        WriteStep::Written
    } else if attempt >= MAX_WRITE_ATTEMPTS {
        WriteStep::Failed
    } else {
        let next: u8 = attempt + 1;
        WriteStep::Retry { next_attempt: next, delay_ms: 25 * (next as u64) }
    }
}

impl StorageWriterMetrics {
    /// All counters at zero.
    pub fn new() -> (r: StorageWriterMetrics)
        ensures
            r == (StorageWriterMetrics { accepted: 0, dropped: 0, written: 0, failed: 0, retried: 0 }),
    {
        StorageWriterMetrics { accepted: 0, dropped: 0, written: 0, failed: 0, retried: 0 }
    }

    /// Records the answer of the queue to an enqueue: queued commands count
    /// as accepted, a full queue drops the command, a closed writer counts
    /// nothing.
    pub fn record_enqueue(&mut self, outcome: TrySendOutcome) -> (r: Result<(), StorageError>)
        requires
            old(self).accepted < u64::MAX,
            old(self).dropped < u64::MAX,
        ensures
            final(self).accepted == old(self).accepted + (if outcome == TrySendOutcome::Sent {
                1int
            } else {
                0
            }),
            final(self).dropped == old(self).dropped + (if outcome == TrySendOutcome::Full {
                1int
            } else {
                0
            }),
            final(self).written == old(self).written,
            final(self).failed == old(self).failed,
            final(self).retried == old(self).retried,
            outcome == TrySendOutcome::Sent <==> r is Ok,
            outcome == TrySendOutcome::Full ==> r == Err::<(), StorageError>(StorageError::QueueFull),
            outcome == TrySendOutcome::Closed ==> r == Err::<(), StorageError>(StorageError::WriterClosed),
    {
        match outcome {
            TrySendOutcome::Sent => {
                self.accepted = self.accepted + 1;
                Ok(())
            },
            TrySendOutcome::Full => {
                self.dropped = self.dropped + 1;
                Err(StorageError::QueueFull)
            },
            TrySendOutcome::Closed => Err(StorageError::WriterClosed),
        }
    }

    /// Records a write step: written, failed, or one more retry.
    pub fn record_step(&mut self, step: WriteStep)
        requires
            old(self).written < u64::MAX,
            old(self).failed < u64::MAX,
            old(self).retried < u64::MAX,
        ensures
            final(self).accepted == old(self).accepted,
            final(self).dropped == old(self).dropped,
            final(self).written == old(self).written + (if step == WriteStep::Written {
                1int
            } else {
                0
            }),
            final(self).failed == old(self).failed + (if step == WriteStep::Failed {
                1int
            } else {
                0
            }),
            final(self).retried == old(self).retried + (if step is Retry {
                1int
            } else {
                0
            }),
    {
        match step {
            WriteStep::Written => self.written = self.written + 1,
            WriteStep::Failed => self.failed = self.failed + 1,
            WriteStep::Retry { .. } => self.retried = self.retried + 1,
        }
    }

    /// The snapshot the writer reports.
    pub fn snapshot(&self, capacity: usize, available: usize, closed: bool) -> (r: StorageWriterSnapshot)
        ensures
            r.queued_capacity == capacity,
            r.queued_available == available,
            r.task_status@ == (if closed {
                "stopped"@
            } else {
                "running"@
            }),
            r.accepted == self.accepted,
            r.dropped == self.dropped,
            r.written == self.written,
            r.failed == self.failed,
            r.retried == self.retried,
    {
        StorageWriterSnapshot {
            queued_capacity: capacity,
            queued_available: available,
            task_status: if closed {
                "stopped"
            } else {
                "running"
            },
            accepted: self.accepted,
            dropped: self.dropped,
            written: self.written,
            failed: self.failed,
            retried: self.retried,
        }
    }
}

} // verus!
