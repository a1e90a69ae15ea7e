//! The live state the realtime state owner keeps: per market the latest tick,
//! window, Polymarket snapshot and candles; per source when it was last seen.
use vstd::prelude::*;

use crate::realtime::candle::{
    apply_candles, apply_tick_to_candles, candle_views, candles_ordered, minute_start,
    tick_volume, CandleSnapshot, CandleView,
};
use crate::realtime::types::{
    opt_parts, MarketKey, MarketTick, PolymarketSnapshot, RealtimeEvent, MAX_UNIX_SECONDS,
    MIN_UNIX_SECONDS, NANOS_PER_SECOND,
};
use crate::realtime::window::{
    event_slug, window_fits, window_for_tick, window_in_range, window_start_seconds, MarketWindowState,
};
use crate::text::{lemma_text_lt_irreflexive, lemma_text_lt_total, lemma_text_lt_trans, str_eq, string_of, text_less, text_lt};
use crate::timefmt::in_time_range;

verus! {

/// How long a source may stay silent before it counts as stale.
#[derive(Debug, Clone, Copy, PartialEq, Eq, Structural)]
pub struct StateOwnerConfig {
    /// Nanoseconds.
    pub stale_after: i128,
}

impl StateOwnerConfig {
    /// Thirty seconds.
    pub fn default_config() -> (r: StateOwnerConfig)
        ensures
            r.stale_after == 30 * NANOS_PER_SECOND,
    {
        StateOwnerConfig { stale_after: 30 * NANOS_PER_SECOND }
    }
}

impl Default for StateOwnerConfig {
    fn default() -> (r: StateOwnerConfig)
        ensures
            r.stale_after == 30 * NANOS_PER_SECOND,
    {
        StateOwnerConfig::default_config()
    }
}

/// Counters of the state owner.
#[derive(Debug, Clone, Copy, PartialEq, Eq, Structural)]
pub struct RealtimeStateMetrics {
    pub processed: u64,
    pub fanout_dropped: u64,
}

/// What is known of one market.
#[derive(Debug)]
pub struct LiveMarketState {
    pub market_key: MarketKey,
    pub latest_tick: Option<MarketTick>,
    pub current_window: Option<MarketWindowState>,
    pub latest_snapshot: Option<PolymarketSnapshot>,
    pub candles: Vec<CandleSnapshot>,
}

/// When a source was last seen (nanoseconds).
#[derive(Debug, Clone, Copy, PartialEq, Eq, Structural)]
pub struct SourceSnapshot {
    pub last_seen_at: i128,
}

/// The whole live state: markets in key order, sources in name order.
#[derive(Debug)]
pub struct RealtimeStateSnapshot {
    pub markets: Vec<LiveMarketState>,
    pub sources: Vec<(String, SourceSnapshot)>,
    pub metrics: RealtimeStateMetrics,
}

/// Position of a market key in the key order (`Btc5m` before `Eth15m`).
pub open spec fn key_rank(k: MarketKey) -> int {
    match k {
        MarketKey::Btc5m => 0,
        MarketKey::Eth15m => 1,
    }
}

/// Markets strictly ordered by key: each key at most once.
pub open spec fn markets_ordered(ms: Seq<LiveMarketState>) -> bool {
    forall|i: int, j: int|
        0 <= i < j < ms.len() ==> key_rank(ms[i].market_key) < key_rank(ms[j].market_key)
}

/// Sources strictly ordered by name: each name at most once.
pub open spec fn sources_ordered(ss: Seq<(String, SourceSnapshot)>) -> bool {
    forall|i: int, j: int| 0 <= i < j < ss.len() ==> text_lt(ss[i].0@, ss[j].0@)
}

/// The entry of a market, if the state has one.
pub open spec fn market_of(ms: Seq<LiveMarketState>, key: MarketKey) -> Option<LiveMarketState> {
    if exists|i: int| 0 <= i < ms.len() && (#[trigger] ms[i]).market_key == key {
        Some(ms[choose|i: int| 0 <= i < ms.len() && (#[trigger] ms[i]).market_key == key])
    } else {
        None
    }
}

/// When a source was last seen, if ever.
pub open spec fn source_seen(ss: Seq<(String, SourceSnapshot)>, name: Seq<char>) -> Option<int> {
    if exists|i: int| 0 <= i < ss.len() && (#[trigger] ss[i]).0@ == name {
        Some(
            ss[choose|i: int| 0 <= i < ss.len() && (#[trigger] ss[i]).0@ == name].1.last_seen_at as int,
        )
    } else {
        None
    }
}

/// The candles of an optional market entry (none without an entry).
pub open spec fn entry_candles(m: Option<LiveMarketState>) -> Seq<CandleView> {
    match m {
        Some(e) => candle_views(e.candles@),
        None => Seq::empty(),
    }
}

/// The Polymarket snapshot of an optional market entry.
pub open spec fn entry_snapshot(m: Option<LiveMarketState>) -> Option<PolymarketSnapshot> {
    match m {
        Some(e) => e.latest_snapshot,
        None => None,
    }
}

/// The latest tick of an optional market entry.
pub open spec fn entry_tick(m: Option<LiveMarketState>) -> Option<MarketTick> {
    match m {
        Some(e) => e.latest_tick,
        None => None,
    }
}

/// The window of an optional market entry.
pub open spec fn entry_window(m: Option<LiveMarketState>) -> Option<MarketWindowState> {
    match m {
        Some(e) => e.current_window,
        None => None,
    }
}

/// The window `window_for_tick` gives for a tick at `ts`.
pub open spec fn window_of(w: MarketWindowState, key: MarketKey, ts: int) -> bool {
    &&& w.market_key == key
    &&& w.start_ts == window_start_seconds(key, ts) * NANOS_PER_SECOND
    &&& w.end_ts == (window_start_seconds(key, ts) + key.interval()) * NANOS_PER_SECOND
    &&& w.event_slug@ == event_slug(key, window_start_seconds(key, ts))
}

/// A tick whose times the calendar type can hold.
pub open spec fn tick_in_range(t: MarketTick) -> bool {
    &&& in_time_range(t.source_ts as int)
    &&& window_in_range(t.market_key, t.source_ts as int)
}

/// An event the state can take: a tick must be in range.
pub open spec fn event_in_range(e: RealtimeEvent) -> bool {
    match e {
        RealtimeEvent::Tick(t) => tick_in_range(t),
        _ => true,
    }
}

/// Whether the state can take an event: a tick's time and window must lie in
/// the timestamp range.
pub fn event_fits(event: &RealtimeEvent) -> (r: bool)
    ensures
        r == event_in_range(*event),
{
    match event {
        RealtimeEvent::Tick(t) => {
            let ts = t.source_ts;
            MIN_UNIX_SECONDS * NANOS_PER_SECOND <= ts && ts < (MAX_UNIX_SECONDS + 1) * NANOS_PER_SECOND
                && window_fits(t.market_key, ts)
        },
        _ => true,
    }
}

impl RealtimeStateSnapshot {
    /// Markets and sources ordered, candles of each market ordered.
    pub open spec fn wf(self) -> bool {
        &&& markets_ordered(self.markets@)
        &&& sources_ordered(self.sources@)
        &&& forall|i: int|
            0 <= i < self.markets@.len() ==> candles_ordered(
                candle_views(#[trigger] self.markets@[i].candles@),
            )
    }

    /// The empty state.
    pub fn new() -> (r: RealtimeStateSnapshot)
        ensures
            r.wf(),
            r.markets@.len() == 0,
            r.sources@.len() == 0,
            r.metrics == (RealtimeStateMetrics { processed: 0, fanout_dropped: 0 }),
    {
        RealtimeStateSnapshot {
            markets: Vec::new(),
            sources: Vec::new(),
            metrics: RealtimeStateMetrics { processed: 0, fanout_dropped: 0 },
        }
    }

    /// Counts one processed event.
    pub fn record_processed(&mut self)
        requires
            old(self).metrics.processed < u64::MAX,
        ensures
            final(self).metrics.processed == old(self).metrics.processed + 1,
            final(self).metrics.fanout_dropped == old(self).metrics.fanout_dropped,
            final(self).markets == old(self).markets,
            final(self).sources == old(self).sources,
    {
        self.metrics.processed = self.metrics.processed + 1;
    }

    /// Counts events that fan-out receivers did not take.
    pub fn record_fanout_dropped(&mut self, dropped: u64)
        requires
            old(self).metrics.fanout_dropped + dropped <= u64::MAX,
        ensures
            final(self).metrics.fanout_dropped == old(self).metrics.fanout_dropped + dropped,
            final(self).metrics.processed == old(self).metrics.processed,
            final(self).markets == old(self).markets,
            final(self).sources == old(self).sources,
    {
        self.metrics.fanout_dropped = self.metrics.fanout_dropped + dropped;
    }

    /// The number of markets with an entry.
    pub fn markets_tracked(&self) -> (r: usize)
        ensures
            r == self.markets@.len(),
    {
        self.markets.len()
    }

    /// The entry of a market.
    pub fn market(&self, key: MarketKey) -> (r: Option<&LiveMarketState>)
        requires
            self.wf(),
        ensures
            match r {
                Some(m) => market_of(self.markets@, key) == Some(*m),
                None => market_of(self.markets@, key) is None,
            },
    {
        let mut i: usize = 0;
        while i < self.markets.len()
            invariant
                self.wf(),
                i <= self.markets.len(),
                forall|j: int| 0 <= j < i ==> (#[trigger] self.markets@[j]).market_key != key,
            decreases self.markets.len() - i,
        {
            if self.markets[i].market_key == key {
                proof {
                    lemma_market_of_at(self.markets@, i as int);
                }
                return Some(&self.markets[i]);
            }
            i = i + 1;
        }
        None
    }

    /// Each source with "stale" when it was last seen more than `stale_after`
    /// before `now`, else "fresh"; in name order.
    pub fn source_status_at(&self, now: i128, stale_after: i128) -> (r: Vec<(String, String)>)
        ensures
            r@.len() == self.sources@.len(),
            forall|i: int|
                0 <= i < r@.len() ==> (#[trigger] r@[i]).0@ == self.sources@[i].0@ && r@[i].1@
                    == source_status(self.sources@[i].1.last_seen_at as int, now as int, stale_after as int),
    {
        let mut out: Vec<(String, String)> = Vec::new();
        let mut i: usize = 0;
        while i < self.sources.len()
            invariant
                i <= self.sources.len(),
                out@.len() == i,
                forall|j: int|
                    0 <= j < i ==> (#[trigger] out@[j]).0@ == self.sources@[j].0@ && out@[j].1@
                        == source_status(self.sources@[j].1.last_seen_at as int, now as int, stale_after as int),
            decreases self.sources.len() - i,
        {
            let seen = self.sources[i].1.last_seen_at;
            let status = stale_status(now, seen, stale_after);
            out.push((self.sources[i].0.clone(), status));
            i = i + 1;
        }
        out
    }
}

/// "stale" when more than `stale_after` passed since `last_seen`, else "fresh".
pub open spec fn source_status(last_seen: int, now: int, stale_after: int) -> Seq<char> {
    if now - last_seen > stale_after {
        "stale"@
    } else {
        "fresh"@
    }
}

fn stale_status(now: i128, last_seen: i128, stale_after: i128) -> (r: String)
    ensures
        r@ == source_status(last_seen as int, now as int, stale_after as int),
{
    let stale = if last_seen >= 0 {
        now >= i128::MIN + last_seen && now - last_seen > stale_after
    } else {
        now > i128::MAX + last_seen || now - last_seen > stale_after
    };
    if stale {
        string_of("stale")
    } else {
        string_of("fresh")
    }
}

/// The entry at `i` is the entry of its key.
proof fn lemma_market_of_at(ms: Seq<LiveMarketState>, i: int)
    requires
        markets_ordered(ms),
        0 <= i < ms.len(),
    ensures
        market_of(ms, ms[i].market_key) == Some(ms[i]),
{
    let key = ms[i].market_key;
    assert(ms[i].market_key == key);
    let j = choose|j: int| 0 <= j < ms.len() && (#[trigger] ms[j]).market_key == key;
    if j < i {
        assert(key_rank(ms[j].market_key) < key_rank(ms[i].market_key));
    } else if j > i {
        assert(key_rank(ms[i].market_key) < key_rank(ms[j].market_key));
    }
}

/// The source at `i` is the entry of its name.
proof fn lemma_source_seen_at(ss: Seq<(String, SourceSnapshot)>, i: int)
    requires
        sources_ordered(ss),
        0 <= i < ss.len(),
    ensures
        source_seen(ss, ss[i].0@) == Some(ss[i].1.last_seen_at as int),
{
    let name = ss[i].0@;
    assert(ss[i].0@ == name);
    let j = choose|j: int| 0 <= j < ss.len() && (#[trigger] ss[j]).0@ == name;
    lemma_text_lt_irreflexive(name);
    if j < i {
        assert(text_lt(ss[j].0@, ss[i].0@));
    } else if j > i {
        assert(text_lt(ss[i].0@, ss[j].0@));
    }
}

/// A market entry with nothing known yet.
pub fn empty_market(market_key: MarketKey) -> (r: LiveMarketState)
    ensures
        r.market_key == market_key,
        r.latest_tick is None,
        r.current_window is None,
        r.latest_snapshot is None,
        r.candles@.len() == 0,
{
    LiveMarketState {
        market_key,
        latest_tick: None,
        current_window: None,
        latest_snapshot: None,
        candles: Vec::new(),
    }
}

/// Takes the entry of `key` out of the list (a new empty one when there is
/// none), and gives the place where it goes back.
fn take_market(markets: &mut Vec<LiveMarketState>, key: MarketKey) -> (r: (usize, LiveMarketState))
    requires
        markets_ordered(old(markets)@),
        forall|i: int|
            0 <= i < old(markets)@.len() ==> candles_ordered(
                candle_views(#[trigger] old(markets)@[i].candles@),
            ),
    ensures
        r.0 <= final(markets)@.len(),
        r.1.market_key == key,
        market_of(old(markets)@, key) is Some ==> market_of(old(markets)@, key) == Some(r.1),
        market_of(old(markets)@, key) is None ==> r.1.latest_tick is None && r.1.current_window is None
            && r.1.latest_snapshot is None && r.1.candles@.len() == 0,
        candles_ordered(candle_views(r.1.candles@)),
        forall|j: int| 0 <= j < r.0 ==> key_rank((#[trigger] final(markets)@[j]).market_key) < key_rank(key),
        forall|j: int|
            r.0 <= j < final(markets)@.len() ==> key_rank(key) < key_rank(
                (#[trigger] final(markets)@[j]).market_key,
            ),
        markets_ordered(final(markets)@),
        forall|i: int|
            0 <= i < final(markets)@.len() ==> candles_ordered(
                candle_views(#[trigger] final(markets)@[i].candles@),
            ),
        forall|k: MarketKey| k != key ==> #[trigger] market_of(final(markets)@, k) == market_of(old(markets)@, k),
{
    let ghost before = markets@;
    let mut i: usize = 0;
    while i < markets.len() && key_rank_of(markets[i].market_key) < key_rank_of(key)
        invariant
            i <= markets.len(),
            markets@ == before,
            forall|j: int| 0 <= j < i ==> key_rank((#[trigger] markets@[j]).market_key) < key_rank(key),
        decreases markets.len() - i,
    {
        i = i + 1;
    }
    if i < markets.len() && markets[i].market_key == key {
        proof {
            lemma_market_of_at(before, i as int);
        }
        let m = markets.remove(i);
        proof {
            let after = markets@;
            assert forall|j: int| 0 <= j < after.len() implies (#[trigger] after[j]) == (if j < i {
                before[j]
            } else {
                before[j + 1]
            }) by {}
            assert forall|k: MarketKey| k != key implies #[trigger] market_of(after, k) == market_of(before, k) by {
                if exists|j: int| 0 <= j < before.len() && (#[trigger] before[j]).market_key == k {
                    let j = choose|j: int| 0 <= j < before.len() && (#[trigger] before[j]).market_key == k;
                    lemma_market_of_at(before, j);
                    assert(j != i);
                    let j2 = if j < i { j } else { j - 1 };
                    assert(after[j2] == before[j]);
                    assert forall|a: int, b: int| 0 <= a < b < after.len() implies key_rank(after[a].market_key) < key_rank(after[b].market_key) by {
                        let a0 = if a < i { a } else { a + 1 };
                        let b0 = if b < i { b } else { b + 1 };
                        assert(after[a] == before[a0]);
                        assert(after[b] == before[b0]);
                    }
                    lemma_market_of_at(after, j2);
                } else {
                    assert forall|j: int| 0 <= j < after.len() implies (#[trigger] after[j]).market_key != k by {
                        let j0 = if j < i { j } else { j + 1 };
                        assert(after[j] == before[j0]);
                    }
                }
            }
            assert forall|j: int| i <= j < after.len() implies key_rank(key) < key_rank(
                (#[trigger] after[j]).market_key,
            ) by {
                assert(after[j] == before[j + 1]);
                assert(key_rank(before[i as int].market_key) < key_rank(before[j + 1].market_key));
            }
            assert(candles_ordered(candle_views(before[i as int].candles@)));
        }
        (i, m)
    } else {
        proof {
            if i < before.len() {
                assert(key_rank(before[i as int].market_key) != key_rank(key));
            }
            assert forall|j: int| i <= j < before.len() implies key_rank(key) < key_rank(
                (#[trigger] before[j]).market_key,
            ) by {
                if j > i {
                    assert(key_rank(before[i as int].market_key) < key_rank(before[j].market_key));
                }
            }
            assert forall|j: int| 0 <= j < before.len() implies (#[trigger] before[j]).market_key != key by {
                if j >= i {
                    assert(key_rank(key) < key_rank(before[j].market_key));
                }
            }
            assert(candle_views(Seq::<CandleSnapshot>::empty()) =~= Seq::<CandleView>::empty());
        }
        let m = empty_market(key);
        proof {
            assert(candle_views(m.candles@) =~= Seq::<CandleView>::empty());
        }
        (i, m)
    }
}

/// Puts an entry back at the place `take_market` gave.
fn put_market(markets: &mut Vec<LiveMarketState>, i: usize, m: LiveMarketState)
    requires
        i <= old(markets)@.len(),
        forall|j: int| 0 <= j < i ==> key_rank((#[trigger] old(markets)@[j]).market_key) < key_rank(m.market_key),
        forall|j: int|
            i <= j < old(markets)@.len() ==> key_rank(m.market_key) < key_rank(
                (#[trigger] old(markets)@[j]).market_key,
            ),
        markets_ordered(old(markets)@),
        forall|j: int|
            0 <= j < old(markets)@.len() ==> candles_ordered(
                candle_views(#[trigger] old(markets)@[j].candles@),
            ),
        candles_ordered(candle_views(m.candles@)),
    ensures
        markets_ordered(final(markets)@),
        forall|j: int|
            0 <= j < final(markets)@.len() ==> candles_ordered(
                candle_views(#[trigger] final(markets)@[j].candles@),
            ),
        market_of(final(markets)@, m.market_key) == Some(m),
        forall|k: MarketKey|
            k != m.market_key ==> #[trigger] market_of(final(markets)@, k) == market_of(old(markets)@, k),
{
    let ghost before = markets@;
    let ghost key = m.market_key;
    let ghost mm = m;
    markets.insert(i, m);
    proof {
        let after = markets@;
        assert forall|j: int| 0 <= j < after.len() implies (#[trigger] after[j]) == (if j < i {
            before[j]
        } else if j == i {
            mm
        } else {
            before[j - 1]
        }) by {}
        assert forall|a: int, b: int| 0 <= a < b < after.len() implies key_rank(after[a].market_key) < key_rank(after[b].market_key) by {
            if a < i && b > i {
                assert(after[b] == before[b - 1]);
            }
        }
        lemma_market_of_at(after, i as int);
        assert forall|k: MarketKey| k != key implies #[trigger] market_of(after, k) == market_of(before, k) by {
            if exists|j: int| 0 <= j < before.len() && (#[trigger] before[j]).market_key == k {
                let j = choose|j: int| 0 <= j < before.len() && (#[trigger] before[j]).market_key == k;
                lemma_market_of_at(before, j);
                let j2 = if j < i { j } else { j + 1 };
                assert(after[j2] == before[j]);
                lemma_market_of_at(after, j2);
            } else {
                assert forall|j: int| 0 <= j < after.len() implies (#[trigger] after[j]).market_key != k by {
                    if j < i {
                        assert(after[j] == before[j]);
                    } else if j > i {
                        assert(after[j] == before[j - 1]);
                    }
                }
            }
        }
        assert forall|j: int| 0 <= j < after.len() implies candles_ordered(
            candle_views(#[trigger] after[j].candles@),
        ) by {
            if j < i {
                assert(after[j] == before[j]);
            } else if j > i {
                assert(after[j] == before[j - 1]);
            }
        }
    }
}

/// The rank of a key, executable.
fn key_rank_of(k: MarketKey) -> (r: u8)
    ensures
        r == key_rank(k),
{
    match k {
        MarketKey::Btc5m => 0,
        MarketKey::Eth15m => 1,
    }
}

/// Records that `source` was seen at `last_seen_at`.
pub fn mark_source_seen(state: &mut RealtimeStateSnapshot, source: &str, last_seen_at: i128)
    requires
        sources_ordered(old(state).sources@),
    ensures
        sources_ordered(final(state).sources@),
        source_seen(final(state).sources@, source@) == Some(last_seen_at as int),
        forall|n: Seq<char>|
            n != source@ ==> #[trigger] source_seen(final(state).sources@, n) == source_seen(
                old(state).sources@,
                n,
            ),
        final(state).markets == old(state).markets,
        final(state).metrics == old(state).metrics,
{
    let ghost before = state.sources@;
    let mut i: usize = 0;
    while i < state.sources.len() && text_less(state.sources[i].0.as_str(), source)
        invariant
            i <= state.sources.len(),
            state.sources@ == before,
            forall|j: int| 0 <= j < i ==> text_lt((#[trigger] state.sources@[j]).0@, source@),
        decreases state.sources.len() - i,
    {
        i = i + 1;
    }
    let entry = SourceSnapshot { last_seen_at };
    if i < state.sources.len() && str_eq(state.sources[i].0.as_str(), source) {
        let name = state.sources[i].0.clone();
        state.sources.set(i, (name, entry));
        proof {
            let after = state.sources@;
            assert forall|j: int| 0 <= j < after.len() && j != i implies #[trigger] after[j] == before[j] by {}
            assert(after[i as int].0@ == before[i as int].0@);
            assert forall|a: int, b: int| 0 <= a < b < after.len() implies text_lt(after[a].0@, after[b].0@) by {
                assert(text_lt(before[a].0@, before[b].0@));
            }
            lemma_source_seen_at(after, i as int);
            lemma_seen_same_names(before, after, source@, i as int);
        }
    } else {
        proof {
            if i < before.len() {
                lemma_text_lt_total(before[i as int].0@, source@);
                assert(text_lt(source@, before[i as int].0@));
                assert forall|j: int| i <= j < before.len() implies text_lt(source@, (#[trigger] before[j]).0@) by {
                    if j > i {
                        lemma_text_lt_trans(source@, before[i as int].0@, before[j].0@);
                    }
                }
            }
        }
        state.sources.insert(i, (string_of(source), entry));
        proof {
            let after = state.sources@;
            assert forall|j: int| 0 <= j < after.len() implies (#[trigger] after[j]) == (if j < i {
                before[j]
            } else if j == i {
                after[i as int]
            } else {
                before[j - 1]
            }) by {}
            assert forall|a: int, b: int| 0 <= a < b < after.len() implies text_lt(after[a].0@, after[b].0@) by {
                if a < i && b > i {
                    lemma_text_lt_trans(before[a].0@, source@, before[b - 1].0@);
                }
            }
            lemma_source_seen_at(after, i as int);
            assert forall|n: Seq<char>| n != source@ implies #[trigger] source_seen(after, n) == source_seen(before, n) by {
                if exists|j: int| 0 <= j < before.len() && (#[trigger] before[j]).0@ == n {
                    let j = choose|j: int| 0 <= j < before.len() && (#[trigger] before[j]).0@ == n;
                    lemma_source_seen_at(before, j);
                    let j2 = if j < i { j } else { j + 1 };
                    assert(after[j2] == before[j]);
                    lemma_source_seen_at(after, j2);
                } else {
                    assert forall|j: int| 0 <= j < after.len() implies (#[trigger] after[j]).0@ != n by {
                        if j < i {
                            assert(after[j] == before[j]);
                        } else if j > i {
                            assert(after[j] == before[j - 1]);
                        }
                    }
                }
            }
        }
    }
}

/// Replacing the entry of `name` at `i` leaves every other name's entry as it was.
proof fn lemma_seen_same_names(
    before: Seq<(String, SourceSnapshot)>,
    after: Seq<(String, SourceSnapshot)>,
    name: Seq<char>,
    i: int,
)
    requires
        sources_ordered(before),
        sources_ordered(after),
        before.len() == after.len(),
        0 <= i < before.len(),
        before[i].0@ == name,
        after[i].0@ == name,
        forall|j: int| 0 <= j < after.len() && j != i ==> #[trigger] after[j] == before[j],
    ensures
        forall|n: Seq<char>| n != name ==> #[trigger] source_seen(after, n) == source_seen(before, n),
{
    assert forall|n: Seq<char>| n != name implies #[trigger] source_seen(after, n) == source_seen(before, n) by {
        if exists|j: int| 0 <= j < before.len() && (#[trigger] before[j]).0@ == n {
            let j = choose|j: int| 0 <= j < before.len() && (#[trigger] before[j]).0@ == n;
            lemma_source_seen_at(before, j);
            assert(j != i);
            assert(after[j] == before[j]);
            lemma_source_seen_at(after, j);
        } else {
            assert forall|j: int| 0 <= j < after.len() implies (#[trigger] after[j]).0@ != n by {
                if j != i {
                    assert(after[j] == before[j]);
                }
            }
        }
    }
}

/// `after` records `name` as seen at `ts` and keeps every other source.
pub open spec fn source_marked(
    before: Seq<(String, SourceSnapshot)>,
    after: Seq<(String, SourceSnapshot)>,
    name: Seq<char>,
    ts: int,
) -> bool {
    &&& source_seen(after, name) == Some(ts)
    &&& forall|n: Seq<char>| n != name ==> #[trigger] source_seen(after, n) == source_seen(before, n)
}

/// Every market other than `key` keeps its entry.
pub open spec fn others_kept(before: Seq<LiveMarketState>, after: Seq<LiveMarketState>, key: MarketKey) -> bool {
    forall|k: MarketKey| k != key ==> #[trigger] market_of(after, k) == market_of(before, k)
}

/// The entry `m` is the entry `o` after `tick`: the tick is the latest, the
/// window is the tick's, the candles took the tick and the snapshot is kept.
pub open spec fn ticked(m: LiveMarketState, o: Option<LiveMarketState>, tick: MarketTick) -> bool {
    &&& m.market_key == tick.market_key
    &&& m.latest_tick == Some(tick)
    &&& m.current_window is Some
    &&& window_of(m.current_window.unwrap(), tick.market_key, tick.source_ts as int)
    &&& m.latest_snapshot == entry_snapshot(o)
    &&& candle_views(m.candles@) == apply_candles(
        entry_candles(o),
        minute_start(tick.source_ts as int),
        tick.price.parts(),
        tick_volume(opt_parts(tick.size)),
    )
}

/// The entry `m` is the entry `o` with `snapshot` as its latest snapshot.
pub open spec fn snapshotted(m: LiveMarketState, o: Option<LiveMarketState>, snapshot: PolymarketSnapshot) -> bool {
    &&& m.market_key == snapshot.market_key
    &&& m.latest_snapshot == Some(snapshot)
    &&& m.latest_tick == entry_tick(o)
    &&& m.current_window == entry_window(o)
    &&& candle_views(m.candles@) == entry_candles(o)
}

/// Applies a tick to the entry of its market.
pub fn apply_tick(state: &mut RealtimeStateSnapshot, tick: MarketTick)
    requires
        old(state).wf(),
        tick_in_range(tick),
    ensures
        final(state).wf(),
        final(state).sources == old(state).sources,
        final(state).metrics == old(state).metrics,
        market_of(final(state).markets@, tick.market_key) is Some,
        ticked(
            market_of(final(state).markets@, tick.market_key).unwrap(),
            market_of(old(state).markets@, tick.market_key),
            tick,
        ),
        others_kept(old(state).markets@, final(state).markets@, tick.market_key),
{
    let ghost o = market_of(state.markets@, tick.market_key);
    let (i, mut m) = take_market(&mut state.markets, tick.market_key);
    proof {
        if o is None {
            assert(candle_views(m.candles@) =~= Seq::<CandleView>::empty());
        }
    }
    let w = window_for_tick(tick.market_key, tick.source_ts);
    apply_tick_to_candles(&mut m.candles, &tick);
    m.current_window = Some(w);
    let ghost t = tick;
    m.latest_tick = Some(tick);
    let ghost mm = m;
    put_market(&mut state.markets, i, m);
    assert(ticked(mm, o, t));
}

/// Records a Polymarket snapshot on the entry of its market.
pub fn apply_snapshot(state: &mut RealtimeStateSnapshot, snapshot: PolymarketSnapshot)
    requires
        old(state).wf(),
    ensures
        final(state).wf(),
        final(state).sources == old(state).sources,
        final(state).metrics == old(state).metrics,
        market_of(final(state).markets@, snapshot.market_key) is Some,
        snapshotted(
            market_of(final(state).markets@, snapshot.market_key).unwrap(),
            market_of(old(state).markets@, snapshot.market_key),
            snapshot,
        ),
        others_kept(old(state).markets@, final(state).markets@, snapshot.market_key),
{
    let ghost o = market_of(state.markets@, snapshot.market_key);
    let (i, mut m) = take_market(&mut state.markets, snapshot.market_key);
    proof {
        if o is None {
            assert(candle_views(m.candles@) =~= Seq::<CandleView>::empty());
        }
    }
    let ghost s = snapshot;
    m.latest_snapshot = Some(snapshot);
    let ghost mm = m;
    put_market(&mut state.markets, i, m);
    assert(snapshotted(mm, o, s));
}

/// Applies one bus event: a tick updates its market and marks its source seen
/// at its receive time, a snapshot updates its market and marks "polymarket"
/// seen at its capture time, a heartbeat marks its source seen.
pub fn apply_event(state: &mut RealtimeStateSnapshot, event: RealtimeEvent)
    requires
        old(state).wf(),
        event_in_range(event),
    ensures
        final(state).wf(),
        final(state).metrics == old(state).metrics,
        match event {
            RealtimeEvent::Tick(t) => {
                &&& market_of(final(state).markets@, t.market_key) is Some
                &&& ticked(
                    market_of(final(state).markets@, t.market_key).unwrap(),
                    market_of(old(state).markets@, t.market_key),
                    t,
                )
                &&& others_kept(old(state).markets@, final(state).markets@, t.market_key)
                &&& source_marked(old(state).sources@, final(state).sources@, t.source@, t.received_at as int)
            },
            RealtimeEvent::PolymarketSnapshot(p) => {
                &&& market_of(final(state).markets@, p.market_key) is Some
                &&& snapshotted(
                    market_of(final(state).markets@, p.market_key).unwrap(),
                    market_of(old(state).markets@, p.market_key),
                    p,
                )
                &&& others_kept(old(state).markets@, final(state).markets@, p.market_key)
                &&& source_marked(old(state).sources@, final(state).sources@, "polymarket"@, p.captured_at as int)
            },
            RealtimeEvent::SourceHeartbeat { source, received_at } => {
                &&& final(state).markets == old(state).markets
                &&& source_marked(old(state).sources@, final(state).sources@, source@, received_at as int)
            },
        },
{
    match event {
        RealtimeEvent::Tick(tick) => {
            let source = tick.source.clone();
            let received_at = tick.received_at;
            apply_tick(state, tick);
            mark_source_seen(state, source.as_str(), received_at);
        },
        RealtimeEvent::PolymarketSnapshot(snapshot) => {
            let captured_at = snapshot.captured_at;
            apply_snapshot(state, snapshot);
            mark_source_seen(state, "polymarket", captured_at);
        },
        RealtimeEvent::SourceHeartbeat { source, received_at } => {
            mark_source_seen(state, source.as_str(), received_at);
        },
    }
}

} // verus!
