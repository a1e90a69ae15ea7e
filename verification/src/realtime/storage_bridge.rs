//! The realtime storage bridge's decisions: which events become tick writes,
//! and the counters it keeps.
use vstd::prelude::*;

use crate::realtime::types::{MarketKey, MarketTick, RealtimeEvent};
use crate::storage::types::NewTick;

verus! {

/// The bridge's counters.
#[derive(Debug, Clone, Copy, PartialEq, Eq, Structural)]
pub struct RealtimeStorageBridgeSnapshot {
    pub processed: u64,
    pub enqueued: u64,
    pub dropped: u64,
    pub missing_market: u64,
    pub ignored: u64,
}

/// The storage id of a market, from a list of (market, id) pairs; the first
/// pair of the market counts.
pub open spec fn market_id_of(ids: Seq<(MarketKey, u128)>, key: MarketKey) -> Option<u128>
    decreases ids.len(),
{
    if ids.len() == 0 {
        None
    } else if ids[0].0 == key {
        Some(ids[0].1)
    } else {
        market_id_of(ids.drop_first(), key)
    }
}

/// The storage id of a market.
pub fn market_id(ids: &Vec<(MarketKey, u128)>, key: MarketKey) -> (r: Option<u128>)
    ensures
        r == market_id_of(ids@, key),
{
    let mut i: usize = 0;
    assert(ids@.subrange(0, ids@.len() as int) =~= ids@);
    while i < ids.len()
        invariant
            i <= ids.len(),
            market_id_of(ids@, key) == market_id_of(ids@.subrange(i as int, ids@.len() as int), key),
        decreases ids.len() - i,
    {
        let ghost rest = ids@.subrange(i as int, ids@.len() as int);
        assert(rest[0] == ids@[i as int]);
        assert(rest.drop_first() =~= ids@.subrange(i + 1, ids@.len() as int));
        if ids[i].0 == key {
            return Some(ids[i].1);
        }
        i = i + 1;
    }
    None
}

/// What the bridge does with an event.
#[derive(Debug)]
pub enum BridgeAction {
    /// Write this tick.
    Write(NewTick),
    /// The tick's market has no storage id.
    MissingMarket,
    /// Not a tick.
    Ignore,
}

/// A tick of a market with a storage id becomes a write of that tick under
/// the id; a tick of another market is reported missing; other events are
/// ignored.
pub fn bridge_event(ids: &Vec<(MarketKey, u128)>, event: RealtimeEvent) -> (r: BridgeAction)
    ensures
        match event {
            RealtimeEvent::Tick(t) => match market_id_of(ids@, t.market_key) {
                Some(id) => r matches BridgeAction::Write(w) && w.market_id == id && w.source
                    == t.source && w.source_ts == t.source_ts && w.received_at == t.received_at
                    && w.price == t.price && w.size == t.size && w.sequence == t.sequence,
                None => r is MissingMarket,
            },
            _ => r is Ignore,
        },
{
    match event {
        RealtimeEvent::Tick(tick) => match market_id(ids, tick.market_key) {
            Some(market_id) => BridgeAction::Write(
                NewTick {
                    market_id,
                    source: tick.source,
                    source_ts: tick.source_ts,
                    received_at: tick.received_at,
                    price: tick.price,
                    size: tick.size,
                    sequence: tick.sequence,
                },
            ),
            None => BridgeAction::MissingMarket,
        },
        _ => BridgeAction::Ignore,
    }
}

/// How the bridge handled one event.
#[derive(Debug, Clone, Copy, PartialEq, Eq, Structural)]
pub enum BridgeOutcome {
    /// A tick write was queued.
    Enqueued,
    /// The writer's queue did not take the write.
    Dropped,
    /// The tick's market has no storage id.
    MissingMarket,
    /// Not a tick.
    Ignored,
}

impl RealtimeStorageBridgeSnapshot {
    /// All counters at zero.
    pub fn new() -> (r: RealtimeStorageBridgeSnapshot)
        ensures
            r == (RealtimeStorageBridgeSnapshot {
                processed: 0,
                enqueued: 0,
                dropped: 0,
                missing_market: 0,
                ignored: 0,
            }),
    {
        RealtimeStorageBridgeSnapshot { processed: 0, enqueued: 0, dropped: 0, missing_market: 0, ignored: 0 }
    }

    /// Counts one processed event under its outcome.
    pub fn record(&mut self, outcome: BridgeOutcome)
        requires
            old(self).processed < u64::MAX,
            old(self).enqueued < u64::MAX,
            old(self).dropped < u64::MAX,
            old(self).missing_market < u64::MAX,
            old(self).ignored < u64::MAX,
        ensures
            final(self).processed == old(self).processed + 1,
            old(self).enqueued + old(self).dropped + old(self).missing_market + old(self).ignored
                == old(self).processed ==> final(self).enqueued + final(self).dropped
                + final(self).missing_market + final(self).ignored == final(self).processed,
            final(self).enqueued == old(self).enqueued + (if outcome == BridgeOutcome::Enqueued {
                1int
            } else {
                0
            }),
            final(self).dropped == old(self).dropped + (if outcome == BridgeOutcome::Dropped {
                1int
            } else {
                0
            }),
            final(self).missing_market == old(self).missing_market + (if outcome
                == BridgeOutcome::MissingMarket {
                1int
            } else {
                0
            }),
            final(self).ignored == old(self).ignored + (if outcome == BridgeOutcome::Ignored {
                1int
            } else {
                0
            }),
    {
        self.processed = self.processed + 1;
        match outcome {
            BridgeOutcome::Enqueued => self.enqueued = self.enqueued + 1,
            BridgeOutcome::Dropped => self.dropped = self.dropped + 1,
            BridgeOutcome::MissingMarket => self.missing_market = self.missing_market + 1,
            BridgeOutcome::Ignored => self.ignored = self.ignored + 1,
        }
    }
}

} // verus!
