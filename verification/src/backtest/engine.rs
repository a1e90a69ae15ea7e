//! Replay: each window with candidates freezes its earliest candidate as the
//! alert and settles it against the window's open and final prices.
use vstd::prelude::*;

use crate::backtest::types::{
    BacktestReplayOutput, FrozenActionableAlert, ReplayWindow, ReplayWindowCandidate,
};
use crate::decimal::{decimal_difference_owned, decimal_product, Decimal};
use crate::json::json_text;
use crate::text::str_eq;

verus! {

/// The position of the earliest candidate; the first one among equals.
pub open spec fn first_min_index(c: Seq<ReplayWindowCandidate>) -> int
    decreases c.len(),
{
    if c.len() <= 1 {
        0
    } else {
        let k = first_min_index(c.drop_last());
        if c.last().created_at < c[k].created_at {
            c.len() - 1
        } else {
            k
        }
    }
}

/// The earliest candidate is at a valid position and nothing is earlier.
pub proof fn lemma_first_min(c: Seq<ReplayWindowCandidate>)
    requires
        c.len() > 0,
    ensures
        0 <= first_min_index(c) < c.len(),
        forall|i: int| 0 <= i < c.len() ==> c[first_min_index(c)].created_at <= #[trigger] c[i].created_at,
        forall|i: int| 0 <= i < first_min_index(c) ==> c[first_min_index(c)].created_at < #[trigger] c[i].created_at,
    decreases c.len(),
{
    if c.len() > 1 {
        let d = c.drop_last();
        lemma_first_min(d);
        assert forall|i: int| 0 <= i < d.len() implies d[i] == c[i] by {}
    }
}

/// Whether an alert on `side` won: "Up" wins when the price rose, "Down" when
/// it fell, any other side never.
pub open spec fn won_spec(side: Seq<char>, open_price: Decimal, final_price: Decimal) -> bool {
    if side == "Up"@ {
        open_price.lt(final_price)
    } else if side == "Down"@ {
        final_price.lt(open_price)
    } else {
        false
    }
}

/// (mantissa, scale) of the profit or loss of an alert paying `limit` per unit
/// for `size` units: the size less the stake when won, minus the stake when
/// lost.
pub open spec fn profit_parts(limit: (int, int), size: (int, int), won: bool) -> (int, int) {
    let stake = decimal_product(limit.0, limit.1, size.0, size.1);
    if won {
        decimal_difference_owned(size.0, size.1, stake.0, stake.1)
    } else {
        (-stake.0, stake.1)
    }
}

/// Whether a candidate won in a window.
pub fn candidate_won(candidate: &ReplayWindowCandidate, window: &ReplayWindow) -> (r: bool)
    ensures
        r == won_spec(candidate.side@, window.open_price, window.final_price),
{
    if str_eq(candidate.side.as_str(), "Up") {
        window.open_price.less_than(&window.final_price)
    } else if str_eq(candidate.side.as_str(), "Down") {
        window.final_price.less_than(&window.open_price)
    } else {
        false
    }
}

/// The stake of a candidate, its price times its size, has a scale within
/// the decimal limit.
pub open spec fn stake_fits(c: ReplayWindowCandidate) -> bool {
    c.limit_price.can_multiply(c.suggested_size)
}

/// Every candidate of the window has a stake that fits.
pub open spec fn stakes_fit(w: ReplayWindow) -> bool {
    forall|k: int| 0 <= k < w.candidates@.len() ==> stake_fits(#[trigger] w.candidates@[k])
}

/// The profit or loss of paying `limit_price` for `suggested_size` units.
pub fn profit_loss(limit_price: &Decimal, suggested_size: &Decimal, won: bool) -> (r: Decimal)
    requires
        limit_price.can_multiply(*suggested_size),
    ensures
        r.parts() == profit_parts(limit_price.parts(), suggested_size.parts(), won),
{
    let stake = limit_price.mul(suggested_size);
    if won {
        suggested_size.sub_owned(&stake)
    } else {
        stake.neg()
    }
}

/// The alert is the candidate, field for field.
pub open spec fn alert_of(a: FrozenActionableAlert, c: ReplayWindowCandidate) -> bool {
    &&& a.created_at == c.created_at
    &&& a.side@ == c.side@
    &&& a.confidence.parts() == c.confidence.parts()
    &&& a.limit_price.parts() == c.limit_price.parts()
    &&& a.suggested_size.parts() == c.suggested_size.parts()
    &&& a.ttl_ms == c.ttl_ms
    &&& a.reason@ == c.reason@
    &&& json_text(a.features) == json_text(c.features)
    &&& a.input_snapshot_hash@ == c.input_snapshot_hash@
}

/// The output of a window: its earliest candidate frozen, settled against the
/// window's prices.
pub open spec fn output_of(o: BacktestReplayOutput, w: ReplayWindow) -> bool {
    let c = w.candidates@[first_min_index(w.candidates@)];
    &&& o.market_key@ == w.market_key@
    &&& o.window_start == w.window_start
    &&& o.window_end == w.window_end
    &&& alert_of(o.alert, c)
    &&& o.open_price.parts() == w.open_price.parts()
    &&& o.final_price.parts() == w.final_price.parts()
    &&& o.won == won_spec(c.side@, w.open_price, w.final_price)
    &&& o.profit_loss.parts() == profit_parts(c.limit_price.parts(), c.suggested_size.parts(), o.won)
}

/// Freezes a candidate as an alert.
fn freeze(c: &ReplayWindowCandidate) -> (r: FrozenActionableAlert)
    ensures
        alert_of(r, *c),
{
    FrozenActionableAlert {
        created_at: c.created_at,
        side: c.side.clone(),
        confidence: c.confidence.copy(),
        limit_price: c.limit_price.copy(),
        suggested_size: c.suggested_size.copy(),
        ttl_ms: c.ttl_ms,
        reason: c.reason.clone(),
        features: c.features.copy(),
        input_snapshot_hash: c.input_snapshot_hash.clone(),
    }
}

/// The output of a window, or none when it has no candidate.
pub fn first_frozen_output(window: &ReplayWindow) -> (r: Option<BacktestReplayOutput>)
    requires
        stakes_fit(*window),
    ensures
        r is None <==> window.candidates@.len() == 0,
        r matches Some(o) ==> output_of(o, *window),
{
    if window.candidates.len() == 0 {
        return None;
    }
    let mut best: usize = 0;
    let mut i: usize = 1;
    while i < window.candidates.len()
        invariant
            1 <= i <= window.candidates.len(),
            best == first_min_index(window.candidates@.subrange(0, i as int)),
            best < i,
        decreases window.candidates.len() - i,
    {
        let ghost prefix = window.candidates@.subrange(0, i + 1);
        assert(prefix.drop_last() =~= window.candidates@.subrange(0, i as int));
        proof {
            lemma_first_min(window.candidates@.subrange(0, i as int));
        }
        if window.candidates[i].created_at < window.candidates[best].created_at {
            best = i;
        }
        i = i + 1;
    }
    assert(window.candidates@.subrange(0, i as int) =~= window.candidates@);
    let candidate = &window.candidates[best];
    let won = candidate_won(candidate, window);
    let pl = profit_loss(&candidate.limit_price, &candidate.suggested_size, won);
    Some(BacktestReplayOutput {
        market_key: window.market_key.clone(),
        window_start: window.window_start,
        window_end: window.window_end,
        alert: freeze(candidate),
        open_price: window.open_price.copy(),
        final_price: window.final_price.copy(),
        won,
        profit_loss: pl,
    })
}

/// The positions of the windows that have candidates, in order.
pub open spec fn covered(ws: Seq<ReplayWindow>) -> Seq<int>
    decreases ws.len(),
{
    if ws.len() == 0 {
        Seq::empty()
    } else {
        covered(ws.drop_last()) + if ws.last().candidates@.len() > 0 {
            seq![ws.len() - 1]
        } else {
            Seq::empty()
        }
    }
}

/// Covered positions are valid.
proof fn lemma_covered_bounds(ws: Seq<ReplayWindow>)
    ensures
        forall|k: int| 0 <= k < covered(ws).len() ==> 0 <= #[trigger] covered(ws)[k] < ws.len(),
    decreases ws.len(),
{
    if ws.len() > 0 {
        let d = ws.drop_last();
        lemma_covered_bounds(d);
        let tail: Seq<int> = if ws.last().candidates@.len() > 0 {
            seq![ws.len() - 1]
        } else {
            Seq::empty()
        };
        assert(covered(ws) == covered(d) + tail);
        assert forall|k: int| 0 <= k < covered(ws).len() implies 0 <= #[trigger] covered(ws)[k] < ws.len() by {
            if k < covered(d).len() {
                assert(covered(ws)[k] == covered(d)[k]);
            } else {
                assert(covered(ws)[k] == tail[k - covered(d).len()]);
            }
        }
    }
}

/// The replay outputs of a list of windows: one per window with candidates,
/// in window order.
pub fn replay_outputs(windows: &Vec<ReplayWindow>) -> (r: Vec<BacktestReplayOutput>)
    requires
        forall|k: int| 0 <= k < windows@.len() ==> stakes_fit(#[trigger] windows@[k]),
    ensures
        r@.len() == covered(windows@).len(),
        forall|k: int|
            0 <= k < r@.len() ==> output_of(#[trigger] r@[k], windows@[covered(windows@)[k]]),
{
    let mut out: Vec<BacktestReplayOutput> = Vec::new();
    let mut i: usize = 0;
    while i < windows.len()
        invariant
            i <= windows.len(),
            forall|k: int| 0 <= k < windows@.len() ==> stakes_fit(#[trigger] windows@[k]),
            out@.len() == covered(windows@.subrange(0, i as int)).len(),
            forall|k: int|
                0 <= k < out@.len() ==> output_of(
                    #[trigger] out@[k],
                    windows@[covered(windows@.subrange(0, i as int))[k]],
                ),
        decreases windows.len() - i,
    {
        let ghost before = out@;
        let ghost pre = windows@.subrange(0, i as int);
        let ghost next = windows@.subrange(0, i + 1);
        assert(next.drop_last() =~= pre);
        assert(next.last() == windows@[i as int]);
        proof {
            lemma_covered_bounds(pre);
        }
        match first_frozen_output(&windows[i]) {
            Some(o) => {
                out.push(o);
                assert forall|k: int| 0 <= k < out@.len() implies output_of(
                    #[trigger] out@[k],
                    windows@[covered(next)[k]],
                ) by {
                    if k < before.len() {
                        assert(out@[k] == before[k]);
                        assert(covered(next)[k] == covered(pre)[k]);
                    } else {
                        assert(covered(next)[k] == i);
                    }
                }
            },
            None => {
                assert(covered(next) =~= covered(pre));
            },
        }
        i = i + 1;
    }
    assert(windows@.subrange(0, i as int) =~= windows@);
    out
}

} // verus!
