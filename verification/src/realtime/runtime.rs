//! What the realtime runtime reports about its bus, its state and its storage
//! bridge.
use vstd::prelude::*;

use crate::realtime::bus::RealtimeBusSnapshot;
use crate::realtime::state::{source_status, RealtimeStateMetrics, RealtimeStateSnapshot};
use crate::realtime::storage_bridge::RealtimeStorageBridgeSnapshot;

verus! {

/// The bus capacity a default runtime is spawned with.
pub const DEFAULT_REALTIME_QUEUE_CAPACITY: usize = 4096;

/// The health of the live state: counters, each source's freshness and the
/// number of markets tracked.
#[derive(Debug)]
pub struct RealtimeStateHealthSnapshot {
    pub metrics: RealtimeStateMetrics,
    pub sources: Vec<(String, String)>,
    pub markets_tracked: usize,
}

/// The whole runtime's report.
#[derive(Debug)]
pub struct RealtimeRuntimeSnapshot {
    pub bus: RealtimeBusSnapshot,
    pub state: RealtimeStateHealthSnapshot,
    pub storage_bridge: Option<RealtimeStorageBridgeSnapshot>,
}

/// The health of the live state at `now`.
pub fn state_health(state: &RealtimeStateSnapshot, now: i128, stale_after: i128) -> (r: RealtimeStateHealthSnapshot)
    ensures
        r.metrics == state.metrics,
        r.markets_tracked == state.markets@.len(),
        r.sources@.len() == state.sources@.len(),
        forall|i: int|
            0 <= i < r.sources@.len() ==> (#[trigger] r.sources@[i]).0@ == state.sources@[i].0@ && r.sources@[i].1@
                == source_status(state.sources@[i].1.last_seen_at as int, now as int, stale_after as int),
{
    RealtimeStateHealthSnapshot {
        metrics: state.metrics,
        sources: state.source_status_at(now, stale_after),
        markets_tracked: state.markets_tracked(),
    }
}

} // verus!
