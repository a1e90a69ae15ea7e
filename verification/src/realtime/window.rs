//! Market windows: the aligned interval of a market that contains a timestamp,
//! and the Polymarket event slug that names it.
use vstd::prelude::*;

use crate::realtime::types::{MarketKey, MAX_UNIX_SECONDS, MIN_UNIX_SECONDS, NANOS_PER_SECOND};
use crate::text::{int_text, push_i128, push_str};

verus! {

/// The window of a market that holds a timestamp.
#[derive(Debug, Clone, PartialEq, Eq)]
pub struct MarketWindowState {
    pub market_key: MarketKey,
    pub event_slug: String,
    pub start_ts: i128,
    pub end_ts: i128,
}

/// Two windows of the same market, slug, start and end.
pub open spec fn same_window(a: MarketWindowState, b: MarketWindowState) -> bool {
    &&& a.market_key == b.market_key
    &&& a.event_slug@ == b.event_slug@
    &&& a.start_ts == b.start_ts
    &&& a.end_ts == b.end_ts
}

impl MarketWindowState {
    /// A copy of the window.
    pub fn copy(&self) -> (r: MarketWindowState)
        ensures
            same_window(r, *self),
    {
        MarketWindowState {
            market_key: self.market_key,
            event_slug: self.event_slug.clone(),
            start_ts: self.start_ts,
            end_ts: self.end_ts,
        }
    }
}

/// Whole seconds of a nanosecond timestamp, rounded down (`unix_timestamp`).
pub open spec fn unix_seconds(ts: int) -> int {
    ts / (NANOS_PER_SECOND as int)
}

/// The start, in seconds, of the window of `key` that holds `ts`.
pub open spec fn window_start_seconds(key: MarketKey, ts: int) -> int {
    unix_seconds(ts) - unix_seconds(ts) % key.interval()
}

/// The slug prefix of a market's events.
pub open spec fn slug_prefix(key: MarketKey) -> Seq<char> {
    match key {
        MarketKey::Btc5m => "btc-updown-5m-"@,
        MarketKey::Eth15m => "eth-updown-15m-"@,
    }
}

/// The event slug of the window starting at `start_seconds`.
pub open spec fn event_slug(key: MarketKey, start_seconds: int) -> Seq<char> {
    slug_prefix(key) + int_text(start_seconds)
}

/// A timestamp whose window lies inside the range the timestamp type accepts.
pub open spec fn window_in_range(key: MarketKey, ts: int) -> bool {
    MIN_UNIX_SECONDS * NANOS_PER_SECOND <= ts && window_start_seconds(key, ts) + key.interval()
        <= MAX_UNIX_SECONDS
}

/// Whether the window of a timestamp lies inside the timestamp range.
pub fn window_fits(key: MarketKey, ts: i128) -> (r: bool)
    ensures
        r == window_in_range(key, ts as int),
{
    if ts < MIN_UNIX_SECONDS * NANOS_PER_SECOND {
        return false;
    }
    let start = window_start(key, ts);
    proof {
        assert(unix_seconds(ts as int) <= 170_141_183_460_469_231_731_687_303_716) by (nonlinear_arith)
            requires
                ts <= 170_141_183_460_469_231_731_687_303_715_884_105_727,
        ;
    }
    start + (key.interval_seconds() as i128) <= MAX_UNIX_SECONDS
}

/// `a` divided by `b > 0`, rounded down.
pub fn floor_div(a: i128, b: i128) -> (q: i128)
    requires
        b > 0,
    ensures
        q == a as int / b as int,
{
    if a >= 0 {
        let q = ((a as u128) / (b as u128)) as i128;
        proof {
            let r = (a as u128) % (b as u128);
            assert(a == q * b + r && 0 <= r < b) by (nonlinear_arith)
                requires
                    q == (a as u128) / (b as u128),
                    r == (a as u128) % (b as u128),
                    a >= 0,
                    b > 0,
            ;
            lemma_euclid_unique(a as int, b as int, q as int, r as int);
        }
        q
    } else {
        let na: u128 = (-(a + 1)) as u128;
        let q0 = (na / (b as u128)) as i128;
        proof {
            let r0 = na % (b as u128);
            assert(na == q0 * b + r0 && 0 <= r0 < b) by (nonlinear_arith)
                requires
                    q0 == na / (b as u128),
                    r0 == na % (b as u128),
                    b > 0,
            ;
            assert(a == (-q0 - 1) * b + (b - r0 - 1)) by (nonlinear_arith)
                requires
                    na == q0 * b + r0,
                    na == -(a + 1),
            ;
            lemma_euclid_unique(a as int, b as int, -q0 - 1, b - r0 - 1);
        }
        -q0 - 1
    }
}

proof fn lemma_euclid_unique(a: int, b: int, q: int, r: int)
    requires
        b > 0,
        a == q * b + r,
        0 <= r < b,
    ensures
        q == a / b,
        r == a % b,
{
    let q2 = a / b;
    let r2 = a % b;
    vstd::arithmetic::div_mod::lemma_fundamental_div_mod(a, b);
    vstd::arithmetic::div_mod::lemma_mod_bound(a, b);
    assert(a == q2 * b + r2 && 0 <= r2 < b) by (nonlinear_arith)
        requires
            a == b * q2 + r2,
            0 <= r2 < b,
    ;
    assert(q == q2) by (nonlinear_arith)
        requires
            q * b + r == q2 * b + r2,
            0 <= r < b,
            0 <= r2 < b,
            b > 0,
    ;
}

/// The start second of the window of `key` holding `ts`.
fn window_start(key: MarketKey, ts: i128) -> (r: i128)
    ensures
        r == window_start_seconds(key, ts as int),
{
    let secs = floor_div(ts, NANOS_PER_SECOND);
    let interval = key.interval_seconds() as i128;
    let q = floor_div(secs, interval);
    proof {
        assert(secs - secs % interval == q * interval) by (nonlinear_arith)
            requires
                q == secs / interval,
                interval > 0,
        ;
    }
    q * interval
}

/// The window of `market_key` that holds `tick_ts`.
pub fn window_for_tick(market_key: MarketKey, tick_ts: i128) -> (r: MarketWindowState)
    requires
        window_in_range(market_key, tick_ts as int),
    ensures
        r.market_key == market_key,
        r.start_ts == window_start_seconds(market_key, tick_ts as int) * NANOS_PER_SECOND,
        r.end_ts == (window_start_seconds(market_key, tick_ts as int) + market_key.interval())
            * NANOS_PER_SECOND,
        r.event_slug@ == event_slug(market_key, window_start_seconds(market_key, tick_ts as int)),
{
    let start_seconds = window_start(market_key, tick_ts);
    let interval = market_key.interval_seconds() as i128;
    proof {
        let u = unix_seconds(tick_ts as int);
        assert(u % (market_key.interval()) >= 0);
        assert(start_seconds >= MIN_UNIX_SECONDS - 900) by (nonlinear_arith)
            requires
                start_seconds == u - u % market_key.interval(),
                u % market_key.interval() < market_key.interval(),
                market_key.interval() <= 900,
                u == tick_ts / NANOS_PER_SECOND,
                tick_ts >= MIN_UNIX_SECONDS * NANOS_PER_SECOND,
        ;
    }
    let start_ts = start_seconds * NANOS_PER_SECOND;
    let end_ts = (start_seconds + interval) * NANOS_PER_SECOND;
    MarketWindowState {
        market_key,
        event_slug: event_slug_for_window(market_key, start_seconds),
        start_ts,
        end_ts,
    }
}

/// The event slug of the window of `market_key` starting at `start_seconds`.
pub fn event_slug_for_window(market_key: MarketKey, start_seconds: i128) -> (r: String)
    ensures
        r@ == event_slug(market_key, start_seconds as int),
{
    let mut s = String::new();
    match market_key {
        MarketKey::Btc5m => push_str(&mut s, "btc-updown-5m-"),
        MarketKey::Eth15m => push_str(&mut s, "eth-updown-15m-"),
    }
    push_i128(&mut s, start_seconds);
    assert(s@ =~= event_slug(market_key, start_seconds as int));
    s
}

/// The Polymarket event slug of the window of `market_key` holding `ts`.
pub fn polymarket_event_slug_at(market_key: MarketKey, ts: i128) -> (r: String)
    requires
        window_in_range(market_key, ts as int),
    ensures
        r@ == event_slug(market_key, window_start_seconds(market_key, ts as int)),
{
    window_for_tick(market_key, ts).event_slug
}

/// A window holds its timestamp, starts on a multiple of the market's interval
/// and lasts exactly one interval.
pub proof fn window_law(market_key: MarketKey, ts: int)
    ensures
        window_start_seconds(market_key, ts) * NANOS_PER_SECOND <= ts,
        ts < (window_start_seconds(market_key, ts) + market_key.interval()) * NANOS_PER_SECOND,
        window_start_seconds(market_key, ts) % market_key.interval() == 0,
{
    let n = NANOS_PER_SECOND as int;
    let i = market_key.interval();
    let u = ts / n;
    let s = u - u % i;
    assert(u * n <= ts < (u + 1) * n) by (nonlinear_arith)
        requires
            u == ts / n,
            n > 0,
    ;
    assert(s <= u < s + i) by (nonlinear_arith)
        requires
            s == u - u % i,
            i > 0,
    ;
    assert(s * n <= u * n) by (nonlinear_arith)
        requires
            s <= u,
            n > 0,
    ;
    assert((u + 1) * n <= (s + i) * n) by (nonlinear_arith)
        requires
            u + 1 <= s + i,
            n > 0,
    ;
    assert(s % i == 0) by (nonlinear_arith)
        requires
            s == u - u % i,
            i > 0,
    ;
}

} // verus!
