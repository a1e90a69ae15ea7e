//! One-minute OHLCV candles built from ticks, kept in order of their start.
use vstd::prelude::*;

use crate::decimal::{
    at, decimal_sum_assign, lemma_parts_le_trans, lemma_parts_total, lemma_sum_assign_at, parts_le,
    parts_lt, top, Decimal,
};
use crate::realtime::types::{opt_parts, MarketTick, NANOS_PER_SECOND};
use crate::realtime::window::{floor_div, unix_seconds};
use crate::timefmt::in_time_range;

verus! {

/// One candle: the minute it starts at and its open, high, low, close and volume.
#[derive(Debug)]
pub struct CandleSnapshot {
    pub start_ts: i128,
    pub open: Decimal,
    pub high: Decimal,
    pub low: Decimal,
    pub close: Decimal,
    pub volume: Decimal,
}

/// A candle with its prices as (mantissa, scale).
pub struct CandleView {
    pub start_ts: int,
    pub open: (int, int),
    pub high: (int, int),
    pub low: (int, int),
    pub close: (int, int),
    pub volume: (int, int),
}

impl View for CandleSnapshot {
    type V = CandleView;

    open spec fn view(&self) -> CandleView {
        CandleView {
            start_ts: self.start_ts as int,
            open: self.open.parts(),
            high: self.high.parts(),
            low: self.low.parts(),
            close: self.close.parts(),
            volume: self.volume.parts(),
        }
    }
}

impl CandleSnapshot {
    /// A copy with the same view.
    pub fn copy(&self) -> (r: CandleSnapshot)
        ensures
            r@ == self@,
    {
        CandleSnapshot {
            start_ts: self.start_ts,
            open: self.open.copy(),
            high: self.high.copy(),
            low: self.low.copy(),
            close: self.close.copy(),
            volume: self.volume.copy(),
        }
    }
}

/// The views of a list of candles.
pub open spec fn candle_views(v: Seq<CandleSnapshot>) -> Seq<CandleView> {
    v.map_values(|c: CandleSnapshot| c@)
}

/// Start of the minute that holds `ts`, in nanoseconds.
pub open spec fn minute_start(ts: int) -> int {
    (unix_seconds(ts) - unix_seconds(ts) % 60) * NANOS_PER_SECOND
}

/// Candles strictly ordered by start: no minute twice.
pub open spec fn candles_ordered(v: Seq<CandleView>) -> bool {
    forall|i: int, j: int| 0 <= i < j < v.len() ==> v[i].start_ts < v[j].start_ts
}

/// Low and high bound the open and the close.
pub open spec fn ohlc_ok(c: CandleView) -> bool {
    &&& parts_le(c.low, c.open)
    &&& parts_le(c.open, c.high)
    &&& parts_le(c.low, c.close)
    &&& parts_le(c.close, c.high)
}

/// The size a tick adds to volume: its size, or zero.
pub open spec fn tick_volume(size: Option<(int, int)>) -> (int, int) {
    match size {
        Some(s) => s,
        None => (0, 0),
    }
}

/// A new candle opened by a tick.
pub open spec fn fresh_candle(start: int, price: (int, int), volume: (int, int)) -> CandleView {
    CandleView { start_ts: start, open: price, high: price, low: price, close: price, volume }
}

/// A candle after a tick: a higher price raises the high, a lower one lowers the
/// low, the price becomes the close and the size is added to the volume.
pub open spec fn updated_candle(c: CandleView, price: (int, int), volume: (int, int)) -> CandleView {
    CandleView {
        start_ts: c.start_ts,
        open: c.open,
        high: if parts_lt(c.high, price) {
            price
        } else {
            c.high
        },
        low: if parts_lt(price, c.low) {
            price
        } else {
            c.low
        },
        close: price,
        volume: decimal_sum_assign(c.volume.0, c.volume.1, volume.0, volume.1),
    }
}

/// The candles after a tick of the minute `start`: the candle of that minute is
/// updated, or a new one is put in its place in the order.
pub open spec fn apply_candles(v: Seq<CandleView>, start: int, price: (int, int), volume: (int, int)) -> Seq<CandleView>
    decreases v.len(),
{
    if v.len() == 0 {
        seq![fresh_candle(start, price, volume)]
    } else if v[0].start_ts == start {
        seq![updated_candle(v[0], price, volume)] + v.drop_first()
    } else if v[0].start_ts > start {
        seq![fresh_candle(start, price, volume)] + v
    } else {
        seq![v[0]] + apply_candles(v.drop_first(), start, price, volume)
    }
}

/// Start of the minute holding `ts` (`unix_timestamp - rem_euclid(60)`, in
/// nanoseconds).
pub fn minute_start_ts(ts: i128) -> (r: i128)
    requires
        in_time_range(ts as int),
    ensures
        r == minute_start(ts as int),
{
    let secs = floor_div(ts, NANOS_PER_SECOND);
    let q = floor_div(secs, 60);
    proof {
        assert(secs - secs % 60 == q * 60) by (nonlinear_arith)
            requires
                q == secs / 60,
        ;
        assert(-377_705_116_800 - 60 <= q * 60 <= 253_402_300_799) by (nonlinear_arith)
            requires
                secs == ts / NANOS_PER_SECOND,
                q == secs / 60,
                -377_705_116_800 * NANOS_PER_SECOND <= ts < (253_402_300_799 + 1) * NANOS_PER_SECOND,
        ;
    }
    q * 60 * NANOS_PER_SECOND
}

/// The candles of a prefix that lies before `start` come first, unchanged.
proof fn lemma_apply_prefix(v: Seq<CandleView>, k: int, start: int, price: (int, int), volume: (int, int))
    requires
        0 <= k <= v.len(),
        forall|j: int| 0 <= j < k ==> v[j].start_ts < start,
    ensures
        apply_candles(v, start, price, volume) == v.subrange(0, k) + apply_candles(
            v.subrange(k, v.len() as int),
            start,
            price,
            volume,
        ),
    decreases k,
{
    if k > 0 {
        let rest = v.drop_first();
        assert forall|j: int| 0 <= j < k - 1 implies rest[j].start_ts < start by {
            assert(rest[j] == v[j + 1]);
        }
        lemma_apply_prefix(rest, k - 1, start, price, volume);
        assert(rest.subrange(k - 1, rest.len() as int) =~= v.subrange(k, v.len() as int));
        assert(v.subrange(0, k) =~= seq![v[0]] + rest.subrange(0, k - 1));
    } else {
        assert(v.subrange(0, 0) + apply_candles(v.subrange(0, v.len() as int), start, price, volume)
            =~= apply_candles(v, start, price, volume)) by {
            assert(v.subrange(0, v.len() as int) =~= v);
        }
    }
}

/// Applying a tick keeps candles ordered and keeps low and high around open and
/// close.
pub proof fn candle_law(v: Seq<CandleView>, start: int, price: (int, int), volume: (int, int))
    requires
        candles_ordered(v),
        forall|i: int| 0 <= i < v.len() ==> ohlc_ok(#[trigger] v[i]),
    ensures
        candles_ordered(apply_candles(v, start, price, volume)),
        forall|i: int|
            0 <= i < apply_candles(v, start, price, volume).len() ==> ohlc_ok(
                #[trigger] apply_candles(v, start, price, volume)[i],
            ),
        apply_candles(v, start, price, volume).len() >= v.len(),
        exists|i: int|
            0 <= i < apply_candles(v, start, price, volume).len() && (
            #[trigger] apply_candles(v, start, price, volume)[i]).start_ts == start,
    decreases v.len(),
{
    let r = apply_candles(v, start, price, volume);
    lemma_parts_total(price, price);
    if v.len() == 0 {
        assert(r[0].start_ts == start);
    } else if v[0].start_ts == start {
        let c = v[0];
        let u = updated_candle(c, price, volume);
        assert(ohlc_ok(c));
        lemma_parts_total(c.high, price);
        lemma_parts_total(price, c.low);
        lemma_parts_total(price, c.high);
        lemma_parts_total(c.low, price);
        if parts_lt(c.high, price) {
            lemma_parts_le_trans(c.open, c.high, price);
        }
        if parts_lt(price, c.low) {
            lemma_parts_le_trans(price, c.low, c.open);
        } else {
            assert(parts_le(c.low, price));
        }
        if !parts_lt(c.high, price) {
            assert(parts_le(price, c.high));
        }
        assert(ohlc_ok(u));
        assert forall|i: int| 0 <= i < r.len() implies ohlc_ok(#[trigger] r[i]) by {
            if i > 0 {
                assert(r[i] == v[i]);
            }
        }
        assert forall|i: int, j: int| 0 <= i < j < r.len() implies r[i].start_ts < r[j].start_ts by {
            assert(r[j] == v[j]);
            if i > 0 {
                assert(r[i] == v[i]);
            }
        }
        assert(r[0].start_ts == start);
    } else if v[0].start_ts > start {
        assert forall|i: int| 0 <= i < r.len() implies ohlc_ok(#[trigger] r[i]) by {
            if i > 0 {
                assert(r[i] == v[i - 1]);
            }
        }
        assert forall|i: int, j: int| 0 <= i < j < r.len() implies r[i].start_ts < r[j].start_ts by {
            assert(r[j] == v[j - 1]);
            if i > 0 {
                assert(r[i] == v[i - 1]);
            } else {
                assert(v[0].start_ts <= v[j - 1].start_ts);
            }
        }
        assert(r[0].start_ts == start);
    } else {
        let rest = v.drop_first();
        assert forall|i: int, j: int| 0 <= i < j < rest.len() implies rest[i].start_ts
            < rest[j].start_ts by {
            assert(rest[i] == v[i + 1]);
            assert(rest[j] == v[j + 1]);
        }
        assert forall|i: int| 0 <= i < rest.len() implies ohlc_ok(#[trigger] rest[i]) by {
            assert(rest[i] == v[i + 1]);
        }
        candle_law(rest, start, price, volume);
        let tail = apply_candles(rest, start, price, volume);
        assert(r =~= seq![v[0]] + tail);
        assert(ohlc_ok(v[0]));
        assert forall|i: int| 0 <= i < r.len() implies ohlc_ok(#[trigger] r[i]) by {
            if i > 0 {
                assert(r[i] == tail[i - 1]);
            }
        }
        lemma_apply_starts(rest, start, price, volume);
        assert forall|i: int, j: int| 0 <= i < j < r.len() implies r[i].start_ts < r[j].start_ts by {
            assert(r[j] == tail[j - 1]);
            if i > 0 {
                assert(r[i] == tail[i - 1]);
            } else {
                let t = tail[j - 1];
                assert(t.start_ts == start || exists|k: int| 0 <= k < rest.len() && rest[k].start_ts == t.start_ts);
                if t.start_ts != start {
                    let k = choose|k: int| 0 <= k < rest.len() && rest[k].start_ts == t.start_ts;
                    assert(rest[k] == v[k + 1]);
                }
            }
        }
        let w = choose|i: int| 0 <= i < tail.len() && (#[trigger] tail[i]).start_ts == start;
        assert(r[w + 1] == tail[w]);
    }
}

/// `n` is candle `c` after a tick at `price` of size `volume`: the same minute
/// and open, the price as close, the high the larger and the low the smaller of
/// the old one and the price, and the volume the old volume plus the size (at
/// the finer of their scales, and no finer).
pub open spec fn folded(c: CandleView, n: CandleView, price: (int, int), volume: (int, int)) -> bool {
    let t = top(c.volume.1, volume.1);
    &&& n.start_ts == c.start_ts
    &&& n.open == c.open
    &&& n.close == price
    &&& parts_le(c.high, n.high) && parts_le(price, n.high) && (n.high == c.high || n.high == price)
    &&& parts_le(n.low, c.low) && parts_le(n.low, price) && (n.low == c.low || n.low == price)
    &&& n.volume.1 <= t
    &&& at(n.volume.0, n.volume.1, t) == at(c.volume.0, c.volume.1, t) + at(volume.0, volume.1, t)
}

/// `n` is the candle a tick opens in minute `start`: open, high, low and close
/// at the price, the size as volume.
pub open spec fn opened(n: CandleView, start: int, price: (int, int), volume: (int, int)) -> bool {
    &&& n.start_ts == start
    &&& n.open == price && n.high == price && n.low == price && n.close == price
    &&& n.volume == volume
}

/// The candle of a tick's minute closes at the tick's price: after the tick,
/// every candle of that minute (there is one) has the price as its close.
pub proof fn candle_close_law(v: Seq<CandleView>, start: int, price: (int, int), volume: (int, int))
    requires
        candles_ordered(v),
        forall|i: int| 0 <= i < v.len() ==> ohlc_ok(#[trigger] v[i]),
    ensures
        exists|i: int|
            0 <= i < apply_candles(v, start, price, volume).len() && (#[trigger] apply_candles(
                v,
                start,
                price,
                volume,
            )[i]).start_ts == start,
        forall|i: int|
            0 <= i < apply_candles(v, start, price, volume).len() && (#[trigger] apply_candles(
                v,
                start,
                price,
                volume,
            )[i]).start_ts == start ==> apply_candles(v, start, price, volume)[i].close == price,
{
    candle_fold_law(v, start, price, volume);
    candle_law(v, start, price, volume);
    let r = apply_candles(v, start, price, volume);
    let j = choose|j: int| 0 <= j < r.len() && (#[trigger] r[j]).start_ts == start && r[j].close == price;
    assert forall|i: int| 0 <= i < r.len() && (#[trigger] r[i]).start_ts == start implies r[i].close == price by {
        if i < j {
            assert(r[i].start_ts < r[j].start_ts);
        } else if j < i {
            assert(r[j].start_ts < r[i].start_ts);
        }
    }
}

/// A tick lands in the candle of its minute: an existing candle of that minute
/// is folded with the tick in place (same position, same number of candles),
/// otherwise a candle opened by the tick appears.
pub proof fn candle_fold_law(v: Seq<CandleView>, start: int, price: (int, int), volume: (int, int))
    requires
        candles_ordered(v),
    ensures
        ({
            let r = apply_candles(v, start, price, volume);
            &&& forall|k: int|
                0 <= k < v.len() && v[k].start_ts == start ==> r.len() == v.len() && folded(
                    v[k],
                    #[trigger] r[k],
                    price,
                    volume,
                )
            &&& (forall|k: int| 0 <= k < v.len() ==> (#[trigger] v[k]).start_ts != start) ==> exists|i: int|
                0 <= i < r.len() && opened(#[trigger] r[i], start, price, volume)
            &&& exists|i: int| 0 <= i < r.len() && (#[trigger] r[i]).start_ts == start && r[i].close == price
        }),
    decreases v.len(),
{
    let r = apply_candles(v, start, price, volume);
    if v.len() == 0 {
        assert(opened(r[0], start, price, volume));
        assert(forall|k: int| 0 <= k < v.len() && #[trigger] v[k].start_ts == start ==> r.len() == v.len());
    } else if v[0].start_ts == start {
        let c = v[0];
        let n = r[0];
        lemma_parts_total(c.high, price);
        lemma_parts_total(price, c.low);
        lemma_parts_total(price, price);
        lemma_parts_total(c.high, c.high);
        lemma_parts_total(c.low, c.low);
        lemma_sum_assign_at(c.volume.0, c.volume.1, volume.0, volume.1, top(c.volume.1, volume.1));
        assert(folded(c, n, price, volume));
        assert(r =~= seq![n] + v.drop_first());
        assert(r.len() == v.len());
        assert forall|k: int| 0 <= k < v.len() && v[k].start_ts == start implies r.len() == v.len()
            && folded(v[k], #[trigger] r[k], price, volume) by {
            if k > 0 {
                assert(v[0].start_ts < v[k].start_ts);
            }
        }
        assert(r[0].start_ts == start && r[0].close == price);
        assert(forall|k: int| 0 <= k < v.len() && #[trigger] v[k].start_ts == start ==> r.len() == v.len());
    } else if v[0].start_ts > start {
        assert forall|k: int| 0 <= k < v.len() implies (#[trigger] v[k]).start_ts != start by {
            if k > 0 {
                assert(v[0].start_ts < v[k].start_ts);
            }
        }
        assert(opened(r[0], start, price, volume));
        assert(r[0].start_ts == start && r[0].close == price);
        assert(forall|k: int| 0 <= k < v.len() && #[trigger] v[k].start_ts == start ==> r.len() == v.len());
    } else {
        let rest = v.drop_first();
        assert forall|i: int, j: int| 0 <= i < j < rest.len() implies rest[i].start_ts < rest[j].start_ts by {
            assert(rest[i] == v[i + 1]);
            assert(rest[j] == v[j + 1]);
        }
        candle_fold_law(rest, start, price, volume);
        let tail = apply_candles(rest, start, price, volume);
        assert(r =~= seq![v[0]] + tail);
        assert forall|k: int| 0 <= k < v.len() && v[k].start_ts == start implies r.len() == v.len()
            && folded(v[k], #[trigger] r[k], price, volume) by {
            assert(k > 0);
            assert(rest[k - 1] == v[k]);
            assert(0 <= k - 1 < rest.len() && rest[k - 1].start_ts == start);
            assert(tail.len() == rest.len() && folded(rest[k - 1], tail[k - 1], price, volume));
            assert(r[k] == tail[k - 1]);
        }
        if forall|k: int| 0 <= k < v.len() ==> (#[trigger] v[k]).start_ts != start {
            assert forall|k: int| 0 <= k < rest.len() implies (#[trigger] rest[k]).start_ts != start by {
                assert(rest[k] == v[k + 1]);
            }
            let i = choose|i: int| 0 <= i < tail.len() && opened(#[trigger] tail[i], start, price, volume);
            assert(r[i + 1] == tail[i]);
        }
        let w = choose|i: int| 0 <= i < tail.len() && (#[trigger] tail[i]).start_ts == start && tail[i].close == price;
        assert(r[w + 1] == tail[w]);
        assert(forall|k: int| 0 <= k < v.len() && #[trigger] v[k].start_ts == start ==> r.len() == v.len());
    }
}

/// Every start in the result is the tick's minute or an earlier start.
proof fn lemma_apply_starts(v: Seq<CandleView>, start: int, price: (int, int), volume: (int, int))
    ensures
        forall|i: int|
            0 <= i < apply_candles(v, start, price, volume).len() ==> (#[trigger] apply_candles(
                v,
                start,
                price,
                volume,
            )[i]).start_ts == start || exists|k: int|
                0 <= k < v.len() && v[k].start_ts == apply_candles(v, start, price, volume)[i].start_ts,
    decreases v.len(),
{
    let r = apply_candles(v, start, price, volume);
    if v.len() == 0 {
    } else if v[0].start_ts == start {
        assert forall|i: int| 0 <= i < r.len() implies (#[trigger] r[i]).start_ts == start || exists|
            k: int,
        | 0 <= k < v.len() && v[k].start_ts == r[i].start_ts by {
            if i > 0 {
                assert(r[i] == v[i]);
            }
        }
    } else if v[0].start_ts > start {
        assert forall|i: int| 0 <= i < r.len() implies (#[trigger] r[i]).start_ts == start || exists|
            k: int,
        | 0 <= k < v.len() && v[k].start_ts == r[i].start_ts by {
            if i > 0 {
                assert(r[i] == v[i - 1]);
            }
        }
    } else {
        let rest = v.drop_first();
        lemma_apply_starts(rest, start, price, volume);
        let tail = apply_candles(rest, start, price, volume);
        assert(r =~= seq![v[0]] + tail);
        assert forall|i: int| 0 <= i < r.len() implies (#[trigger] r[i]).start_ts == start || exists|
            k: int,
        | 0 <= k < v.len() && v[k].start_ts == r[i].start_ts by {
            if i > 0 {
                assert(r[i] == tail[i - 1]);
                if tail[i - 1].start_ts != start {
                    let k = choose|k: int|
                        0 <= k < rest.len() && rest[k].start_ts == tail[i - 1].start_ts;
                    assert(rest[k] == v[k + 1]);
                }
            } else {
                assert(v[0].start_ts == r[0].start_ts);
            }
        }
    }
}

/// Applies a tick to a list of candles ordered by start.
pub fn apply_tick_to_candles(candles: &mut Vec<CandleSnapshot>, tick: &MarketTick)
    requires
        candles_ordered(candle_views(old(candles)@)),
        in_time_range(tick.source_ts as int),
    ensures
        candle_views(final(candles)@) == apply_candles(
            candle_views(old(candles)@),
            minute_start(tick.source_ts as int),
            tick.price.parts(),
            tick_volume(opt_parts(tick.size)),
        ),
        candles_ordered(candle_views(final(candles)@)),
{
    let ghost old_views = candle_views(candles@);
    let start = minute_start_ts(tick.source_ts);
    let volume = match &tick.size {
        Some(s) => s.copy(),
        None => Decimal::from_i64(0),
    };
    let ghost price = tick.price.parts();
    let ghost vol = volume.parts();
    assert(vol == tick_volume(opt_parts(tick.size)));
    let mut i: usize = 0;
    while i < candles.len() && candles[i].start_ts < start
        invariant
            i <= candles.len(),
            old_views == candle_views(candles@),
            forall|j: int| 0 <= j < i ==> #[trigger] candles@[j].start_ts < start,
        decreases candles.len() - i,
    {
        i = i + 1;
    }
    proof {
        assert forall|j: int| 0 <= j < i implies old_views[j].start_ts < start by {
            assert(old_views[j] == candles@[j]@);
        }
        lemma_apply_prefix(old_views, i as int, start as int, price, vol);
        lemma_apply_ordered_ok(old_views, start as int, price, vol);
    }
    let ghost rest = old_views.subrange(i as int, old_views.len() as int);
    if i < candles.len() && candles[i].start_ts == start {
        let old_c = &candles[i];
        let high = if old_c.high.less_than(&tick.price) {
            tick.price.copy()
        } else {
            old_c.high.copy()
        };
        let low = if tick.price.less_than(&old_c.low) {
            tick.price.copy()
        } else {
            old_c.low.copy()
        };
        let c = CandleSnapshot {
            start_ts: old_c.start_ts,
            open: old_c.open.copy(),
            high,
            low,
            close: tick.price.copy(),
            volume: {
                let mut v = old_c.volume.copy();
                v.add_assign(&volume);
                v
            },
        };
        let ghost before = candles@;
        candles.set(i, c);
        proof {
            assert(rest[0] == old_views[i as int]);
            assert(rest.drop_first() =~= old_views.subrange(i + 1, old_views.len() as int));
            assert(candle_views(candles@) =~= old_views.subrange(0, i as int) + (seq![
                updated_candle(rest[0], price, vol),
            ] + rest.drop_first()));
        }
    } else {
        let c = CandleSnapshot {
            start_ts: start,
            open: tick.price.copy(),
            high: tick.price.copy(),
            low: tick.price.copy(),
            close: tick.price.copy(),
            volume,
        };
        candles.insert(i, c);
        proof {
            if i < old_views.len() {
                assert(old_views[i as int] == rest[0]);
                assert(rest[0].start_ts > start);
            }
            assert(candle_views(candles@) =~= old_views.subrange(0, i as int) + (seq![
                fresh_candle(start as int, price, vol),
            ] + rest));
        }
    }
}

/// `candle_law` without the OHLC part: ordering alone is kept.
proof fn lemma_apply_ordered_ok(v: Seq<CandleView>, start: int, price: (int, int), volume: (int, int))
    requires
        candles_ordered(v),
    ensures
        candles_ordered(apply_candles(v, start, price, volume)),
    decreases v.len(),
{
    let r = apply_candles(v, start, price, volume);
    if v.len() == 0 {
    } else if v[0].start_ts == start {
        assert forall|i: int, j: int| 0 <= i < j < r.len() implies r[i].start_ts < r[j].start_ts by {
            assert(r[j] == v[j]);
            if i > 0 {
                assert(r[i] == v[i]);
            }
        }
    } else if v[0].start_ts > start {
        assert forall|i: int, j: int| 0 <= i < j < r.len() implies r[i].start_ts < r[j].start_ts by {
            assert(r[j] == v[j - 1]);
            if i > 0 {
                assert(r[i] == v[i - 1]);
            } else {
                assert(v[0].start_ts <= v[j - 1].start_ts);
            }
        }
    } else {
        let rest = v.drop_first();
        assert forall|i: int, j: int| 0 <= i < j < rest.len() implies rest[i].start_ts
            < rest[j].start_ts by {
            assert(rest[i] == v[i + 1]);
            assert(rest[j] == v[j + 1]);
        }
        lemma_apply_ordered_ok(rest, start, price, volume);
        lemma_apply_starts(rest, start, price, volume);
        let tail = apply_candles(rest, start, price, volume);
        assert(r =~= seq![v[0]] + tail);
        assert forall|i: int, j: int| 0 <= i < j < r.len() implies r[i].start_ts < r[j].start_ts by {
            assert(r[j] == tail[j - 1]);
            if i > 0 {
                assert(r[i] == tail[i - 1]);
            } else {
                let t = tail[j - 1];
                if t.start_ts != start {
                    let k = choose|k: int| 0 <= k < rest.len() && rest[k].start_ts == t.start_ts;
                    assert(rest[k] == v[k + 1]);
                }
            }
        }
    }
}

/// Candles by minute, as the state owner and the candle API keep them.
pub struct CandleAggregator {
    candles: Vec<CandleSnapshot>,
}

impl CandleAggregator {
    /// The candles, oldest first.
    pub closed spec fn candles(self) -> Seq<CandleView> {
        candle_views(self.candles@)
    }

    /// The candles are ordered by start.
    pub closed spec fn wf(self) -> bool {
        candles_ordered(candle_views(self.candles@))
    }

    /// An aggregator without candles.
    pub fn new() -> (r: CandleAggregator)
        ensures
            r.wf(),
            r.candles() == Seq::<CandleView>::empty(),
    {
        let r = CandleAggregator { candles: Vec::new() };
        assert(candle_views(r.candles@) =~= Seq::<CandleView>::empty());
        r
    }

    /// Adds a tick to the candle of its minute, opening that candle if needed.
    pub fn apply_tick(&mut self, tick: &MarketTick)
        requires
            old(self).wf(),
            in_time_range(tick.source_ts as int),
        ensures
            final(self).wf(),
            final(self).candles() == apply_candles(
                old(self).candles(),
                minute_start(tick.source_ts as int),
                tick.price.parts(),
                tick_volume(opt_parts(tick.size)),
            ),
    {
        apply_tick_to_candles(&mut self.candles, tick);
    }

    /// Copies of the candles, oldest first.
    pub fn snapshots(&self) -> (r: Vec<CandleSnapshot>)
        ensures
            candle_views(r@) == self.candles(),
    {
        let mut out: Vec<CandleSnapshot> = Vec::new();
        let mut i: usize = 0;
        while i < self.candles.len()
            invariant
                i <= self.candles.len(),
                out@.len() == i,
                forall|j: int| 0 <= j < i ==> #[trigger] out@[j]@ == self.candles@[j]@,
            decreases self.candles.len() - i,
        {
            out.push(self.candles[i].copy());
            i = i + 1;
        }
        assert(candle_views(out@) =~= candle_views(self.candles@));
        out
    }
}

} // verus!
