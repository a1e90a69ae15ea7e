//! The exact parts of backtest metrics: counts, the longest losing streak, the
//! market a run belongs to, and each output's profit or loss.
use vstd::prelude::*;

use crate::backtest::engine::{profit_loss, profit_parts};
use crate::backtest::types::BacktestReplayOutput;
use crate::decimal::{
    aligned_difference, at, decimal_difference, decimal_sum, decimal_sum_assign, lemma_difference_at,
    lemma_parts_compare_at, lemma_sum_assign_at, parts_lt, Decimal,
};
use crate::text::{chars_of, find_sub, string_from_chars, string_of};

verus! {

/// The number of won outputs.
pub open spec fn wins_of(o: Seq<BacktestReplayOutput>) -> nat
    decreases o.len(),
{
    if o.len() == 0 {
        0
    } else {
        wins_of(o.drop_last()) + if o.last().won {
            1nat
        } else {
            0nat
        }
    }
}

/// The losses at the end of the list, back to the last win.
pub open spec fn trailing_losses(o: Seq<BacktestReplayOutput>) -> nat
    decreases o.len(),
{
    if o.len() == 0 || o.last().won {
        0
    } else {
        trailing_losses(o.drop_last()) + 1
    }
}

/// The longest run of consecutive losses.
pub open spec fn longest_losing_streak(o: Seq<BacktestReplayOutput>) -> nat
    decreases o.len(),
{
    if o.len() == 0 {
        0
    } else {
        let before = longest_losing_streak(o.drop_last());
        let here = trailing_losses(o);
        if here > before {
            here
        } else {
            before
        }
    }
}

proof fn lemma_counts_bounded(o: Seq<BacktestReplayOutput>)
    ensures
        wins_of(o) <= o.len(),
        trailing_losses(o) <= o.len(),
        longest_losing_streak(o) <= o.len(),
    decreases o.len(),
{
    if o.len() > 0 {
        lemma_counts_bounded(o.drop_last());
    }
}

/// The number of won outputs.
pub fn count_wins(outputs: &Vec<BacktestReplayOutput>) -> (r: u64)
    requires
        outputs@.len() <= u64::MAX,
    ensures
        r == wins_of(outputs@),
{
    let mut wins: u64 = 0;
    let mut i: usize = 0;
    while i < outputs.len()
        invariant
            i <= outputs.len(),
            outputs@.len() <= u64::MAX,
            wins == wins_of(outputs@.subrange(0, i as int)),
        decreases outputs.len() - i,
    {
        let ghost next = outputs@.subrange(0, i + 1);
        assert(next.drop_last() =~= outputs@.subrange(0, i as int));
        proof {
            lemma_counts_bounded(outputs@.subrange(0, i as int));
        }
        if outputs[i].won {
            wins = wins + 1;
        }
        i = i + 1;
    }
    assert(outputs@.subrange(0, i as int) =~= outputs@);
    wins
}

/// The longest run of consecutive losing outputs.
pub fn max_consecutive_losses(outputs: &Vec<BacktestReplayOutput>) -> (r: u64)
    requires
        outputs@.len() <= u64::MAX,
    ensures
        r == longest_losing_streak(outputs@),
{
    let mut current: u64 = 0;
    let mut max_seen: u64 = 0;
    let mut i: usize = 0;
    while i < outputs.len()
        invariant
            i <= outputs.len(),
            outputs@.len() <= u64::MAX,
            current == trailing_losses(outputs@.subrange(0, i as int)),
            max_seen == longest_losing_streak(outputs@.subrange(0, i as int)),
        decreases outputs.len() - i,
    {
        let ghost next = outputs@.subrange(0, i + 1);
        assert(next.drop_last() =~= outputs@.subrange(0, i as int));
        proof {
            lemma_counts_bounded(outputs@.subrange(0, i as int));
        }
        if outputs[i].won {
            current = 0;
        } else {
            current = current + 1;
            if current > max_seen {
                max_seen = current;
            }
        }
        i = i + 1;
    }
    assert(outputs@.subrange(0, i as int) =~= outputs@);
    max_seen
}

/// The market of a run: that of its first output, else the dataset name up to
/// its first ':' (all of it without one).
pub open spec fn run_market_key(dataset: Seq<char>, outputs: Seq<BacktestReplayOutput>) -> Seq<char> {
    if outputs.len() > 0 {
        outputs[0].market_key@
    } else {
        match find_sub(dataset, seq![':']) {
            Some(i) => dataset.subrange(0, i),
            None => dataset,
        }
    }
}

/// The market of a run.
pub fn metrics_market_key(dataset: &str, outputs: &Vec<BacktestReplayOutput>) -> (r: String)
    ensures
        r@ == run_market_key(dataset@, outputs@),
{
    if outputs.len() > 0 {
        return outputs[0].market_key.clone();
    }
    let cs = chars_of(dataset);
    let colon = vec![':'];
    assert(colon@ =~= seq![':']);
    proof {
        crate::text::lemma_find_from_bounds(cs@, seq![':'], 0);
    }
    let found = crate::text::find_chars(&cs, &colon);
    assert(run_market_key(dataset@, outputs@) == match find_sub(cs@, colon@) {
        Some(i) => cs@.subrange(0, i),
        None => cs@,
    });
    match found {
        Some(i) => string_from_chars(&cs, 0, i),
        None => string_of(dataset),
    }
}

/// The stake of an output's alert has a scale within the decimal limit.
pub open spec fn output_stake_fits(o: BacktestReplayOutput) -> bool {
    o.alert.limit_price.can_multiply(o.alert.suggested_size)
}

/// The profit or loss of an output, from its alert's price and size.
pub fn output_profit_loss(output: &BacktestReplayOutput) -> (r: Decimal)
    requires
        output_stake_fits(*output),
    ensures
        r.parts() == profit_parts(
            output.alert.limit_price.parts(),
            output.alert.suggested_size.parts(),
            output.won,
        ),
{
    profit_loss(&output.alert.limit_price, &output.alert.suggested_size, output.won)
}

/// The longest losing streak together with the wins fits in the list, and
/// any loss makes the longest streak at least one long.
pub proof fn losing_streak_law(o: Seq<BacktestReplayOutput>)
    ensures
        longest_losing_streak(o) <= o.len(),
        longest_losing_streak(o) + wins_of(o) <= o.len(),
        (exists|i: int| 0 <= i < o.len() && !(#[trigger] o[i]).won) ==> longest_losing_streak(o) >= 1,
    decreases o.len(),
{
    lemma_counts_bounded(o);
    if o.len() > 0 {
        let d = o.drop_last();
        losing_streak_law(d);
        lemma_streak_plus_wins(o);
        if exists|i: int| 0 <= i < o.len() && !(#[trigger] o[i]).won {
            let i = choose|i: int| 0 <= i < o.len() && !(#[trigger] o[i]).won;
            if i < d.len() {
                assert(d[i] == o[i]);
            }
        }
    }
}

proof fn lemma_streak_plus_wins(o: Seq<BacktestReplayOutput>)
    ensures
        longest_losing_streak(o) + wins_of(o) <= o.len(),
        trailing_losses(o) + wins_of(o) <= o.len(),
    decreases o.len(),
{
    if o.len() > 0 {
        lemma_streak_plus_wins(o.drop_last());
    }
}

/// The running total of the outputs' profit and loss, each added with `+`.
pub open spec fn total_parts(o: Seq<BacktestReplayOutput>) -> (int, int)
    decreases o.len(),
{
    if o.len() == 0 {
        (0, 0)
    } else {
        let t = total_parts(o.drop_last());
        let pl = output_parts(o.last());
        decimal_sum(t.0, t.1, pl.0, pl.1)
    }
}

/// The profit or loss of an output as (mantissa, scale).
pub open spec fn output_parts(x: BacktestReplayOutput) -> (int, int) {
    profit_parts(x.alert.limit_price.parts(), x.alert.suggested_size.parts(), x.won)
}

/// The sum of the outputs' profit and loss, from zero, in output order.
pub fn total_profit_loss(outputs: &Vec<BacktestReplayOutput>) -> (r: Decimal)
    requires
        forall|k: int| 0 <= k < outputs@.len() ==> output_stake_fits(#[trigger] outputs@[k]),
    ensures
        r.parts() == total_parts(outputs@),
{
    let mut total = Decimal::from_i64(0);
    let mut i: usize = 0;
    while i < outputs.len()
        invariant
            i <= outputs.len(),
            total.parts() == total_parts(outputs@.subrange(0, i as int)),
            forall|k: int| 0 <= k < outputs@.len() ==> output_stake_fits(#[trigger] outputs@[k]),
        decreases outputs.len() - i,
    {
        let pl = output_profit_loss(&outputs[i]);
        total = total.add(&pl);
        proof {
            assert(outputs@.subrange(0, i + 1).drop_last() =~= outputs@.subrange(0, i as int));
        }
        i = i + 1;
    }
    proof {
        assert(outputs@.subrange(0, outputs@.len() as int) =~= outputs@);
    }
    total
}

/// Equity, its running peak and the largest fall from a peak, after the
/// outputs in order: each output's profit or loss is added to the equity,
/// the peak rises to the equity when the equity is above it, and the fall is
/// the peak minus the equity.
pub open spec fn drawdown_parts(o: Seq<BacktestReplayOutput>) -> ((int, int), (int, int), (int, int))
    decreases o.len(),
{
    if o.len() == 0 {
        ((0, 0), (0, 0), (0, 0))
    } else {
        let (e, p, m) = drawdown_parts(o.drop_last());
        let pl = output_parts(o.last());
        let e2 = decimal_sum_assign(e.0, e.1, pl.0, pl.1);
        let p2 = if parts_lt(p, e2) {
            e2
        } else {
            p
        };
        let d = decimal_difference(p2.0, p2.1, e2.0, e2.1);
        let m2 = if parts_lt(m, d) {
            d
        } else {
            m
        };
        (e2, p2, m2)
    }
}

/// The running equity after the first `k` outputs, counted at scale `t`: the
/// sum of their profits and losses, each written with `t` decimals.
pub open spec fn equity_at(o: Seq<BacktestReplayOutput>, k: int, t: int) -> int
    decreases k,
{
    if k <= 0 {
        0
    } else {
        equity_at(o, k - 1, t) + at(output_parts(o[k - 1]).0, output_parts(o[k - 1]).1, t)
    }
}

/// The equity after `k` outputs depends only on those outputs.
proof fn lemma_equity_prefix(o: Seq<BacktestReplayOutput>, d: Seq<BacktestReplayOutput>, k: int, t: int)
    requires
        0 <= k <= d.len(),
        k <= o.len(),
        forall|i: int| 0 <= i < k ==> o[i] == d[i],
    ensures
        equity_at(o, k, t) == equity_at(d, k, t),
    decreases k,
{
    if k > 0 {
        lemma_equity_prefix(o, d, k - 1, t);
        assert(o[k - 1] == d[k - 1]);
    }
}

/// The max drawdown is the largest fall of the running equity from an
/// earlier (or the same) point: counted at any scale `t` as fine as every
/// profit and loss, it is at least `equity(i) - equity(j)` for all `i <= j`,
/// and it is one of these falls.
pub proof fn drawdown_law(o: Seq<BacktestReplayOutput>, t: int)
    requires
        t >= 0,
        forall|k: int| 0 <= k < o.len() ==> (#[trigger] output_parts(o[k])).1 <= t,
    ensures
        drawdown_parts(o).2.1 <= t,
        forall|i: int, j: int|
            0 <= i <= j <= o.len() ==> #[trigger] equity_at(o, i, t) - #[trigger] equity_at(o, j, t) <= at(
                drawdown_parts(o).2.0,
                drawdown_parts(o).2.1,
                t,
            ),
        exists|i: int, j: int|
            0 <= i <= j <= o.len() && #[trigger] equity_at(o, i, t) - #[trigger] equity_at(o, j, t) == at(
                drawdown_parts(o).2.0,
                drawdown_parts(o).2.1,
                t,
            ),
{
    lemma_drawdown_steps(o, t);
}

/// Along the outputs, the equity is the running sum, the peak the largest
/// equity so far and the drawdown the largest fall so far, all counted at `t`.
proof fn lemma_drawdown_steps(o: Seq<BacktestReplayOutput>, t: int)
    requires
        t >= 0,
        forall|k: int| 0 <= k < o.len() ==> (#[trigger] output_parts(o[k])).1 <= t,
    ensures
        ({
            let (e, p, m) = drawdown_parts(o);
            let n = o.len() as int;
            &&& e.1 <= t && p.1 <= t && m.1 <= t
            &&& at(e.0, e.1, t) == equity_at(o, n, t)
            &&& forall|i: int| 0 <= i <= n ==> #[trigger] equity_at(o, i, t) <= at(p.0, p.1, t)
            &&& exists|i: int| 0 <= i <= n && #[trigger] equity_at(o, i, t) == at(p.0, p.1, t)
            &&& forall|i: int, j: int|
                0 <= i <= j <= n ==> #[trigger] equity_at(o, i, t) - #[trigger] equity_at(o, j, t) <= at(
                    m.0,
                    m.1,
                    t,
                )
            &&& exists|i: int, j: int|
                0 <= i <= j <= n && #[trigger] equity_at(o, i, t) - #[trigger] equity_at(o, j, t) == at(
                    m.0,
                    m.1,
                    t,
                )
        }),
    decreases o.len(),
{
    if o.len() == 0 {
        assert(at(0, 0, t) == 0);
        assert(equity_at(o, 0, t) == 0);
        assert(equity_at(o, 0, t) - equity_at(o, 0, t) == at(0, 0, t));
    } else {
        let n = o.len() as int;
        let d = o.drop_last();
        assert forall|k: int| 0 <= k < d.len() implies (#[trigger] output_parts(d[k])).1 <= t by {
            assert(d[k] == o[k]);
            assert(output_parts(o[k]).1 <= t);
        }
        lemma_drawdown_steps(d, t);
        let (e, p, m) = drawdown_parts(d);
        assert forall|k: int| 0 <= k <= n - 1 implies #[trigger] equity_at(o, k, t) == equity_at(d, k, t) by {
            assert forall|i: int| 0 <= i < k implies o[i] == d[i] by {}
            lemma_equity_prefix(o, d, k, t);
        }
        let pl = output_parts(o.last());
        assert(output_parts(o[n - 1]).1 <= t);
        assert(o[n - 1] == o.last());
        let e2 = decimal_sum_assign(e.0, e.1, pl.0, pl.1);
        lemma_sum_assign_at(e.0, e.1, pl.0, pl.1, t);
        assert(equity_at(o, n - 1, t) == equity_at(d, n - 1, t));
        assert(at(e.0, e.1, t) == equity_at(d, n - 1, t));
        assert(equity_at(o, n, t) == equity_at(o, n - 1, t) + at(pl.0, pl.1, t));
        assert(at(e2.0, e2.1, t) == equity_at(o, n, t));
        let p2 = if parts_lt(p, e2) {
            e2
        } else {
            p
        };
        lemma_parts_compare_at(p, e2, t);
        let dd = decimal_difference(p2.0, p2.1, e2.0, e2.1);
        lemma_difference_at(p2.0, p2.1, e2.0, e2.1, t);
        let m2 = if parts_lt(m, dd) {
            dd
        } else {
            m
        };
        lemma_parts_compare_at(m, dd, t);
        assert(drawdown_parts(o) == (e2, p2, m2));
        let pe = at(p2.0, p2.1, t);
        assert forall|i: int| 0 <= i <= n implies #[trigger] equity_at(o, i, t) <= pe by {
            if i < n {
                assert(equity_at(d, i, t) <= at(p.0, p.1, t));
            }
        }
        let ip = if parts_lt(p, e2) {
            n
        } else {
            let w = choose|i: int| 0 <= i <= n - 1 && #[trigger] equity_at(d, i, t) == at(p.0, p.1, t);
            w
        };
        assert(0 <= ip <= n && equity_at(o, ip, t) == pe);
        let me = at(m2.0, m2.1, t);
        assert forall|i: int, j: int| 0 <= i <= j <= n implies #[trigger] equity_at(o, i, t)
            - #[trigger] equity_at(o, j, t) <= me by {
            if j < n {
                assert(equity_at(d, i, t) - equity_at(d, j, t) <= at(m.0, m.1, t));
            } else {
                assert(equity_at(o, i, t) <= pe);
            }
        }
        if parts_lt(m, dd) {
            assert(equity_at(o, ip, t) - equity_at(o, n, t) == me);
        } else {
            let (wi, wj) = choose|i: int, j: int|
                0 <= i <= j <= n - 1 && #[trigger] equity_at(d, i, t) - #[trigger] equity_at(d, j, t)
                    == at(m.0, m.1, t);
            assert(equity_at(o, wi, t) - equity_at(o, wj, t) == me);
        }
    }
}

/// The largest fall of the equity from its running peak over the outputs.
pub fn max_drawdown_of(outputs: &Vec<BacktestReplayOutput>) -> (r: Decimal)
    requires
        forall|k: int| 0 <= k < outputs@.len() ==> output_stake_fits(#[trigger] outputs@[k]),
    ensures
        r.parts() == drawdown_parts(outputs@).2,
{
    let mut equity = Decimal::from_i64(0);
    let mut peak = Decimal::from_i64(0);
    let mut max_drawdown = Decimal::from_i64(0);
    let mut i: usize = 0;
    while i < outputs.len()
        invariant
            i <= outputs.len(),
            forall|k: int| 0 <= k < outputs@.len() ==> output_stake_fits(#[trigger] outputs@[k]),
            (equity.parts(), peak.parts(), max_drawdown.parts()) == drawdown_parts(
                outputs@.subrange(0, i as int),
            ),
        decreases outputs.len() - i,
    {
        proof {
            assert(outputs@.subrange(0, i + 1).drop_last() =~= outputs@.subrange(0, i as int));
        }
        let pl = output_profit_loss(&outputs[i]);
        equity.add_assign(&pl);
        if peak.less_than(&equity) {
            peak = equity.copy();
        }
        let drawdown = peak.sub(&equity);
        if max_drawdown.less_than(&drawdown) {
            max_drawdown = drawdown;
        }
        i = i + 1;
    }
    proof {
        assert(outputs@.subrange(0, outputs@.len() as int) =~= outputs@);
    }
    max_drawdown
}

} // verus!
