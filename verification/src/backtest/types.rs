//! Backtest values: replay windows and their candidates, frozen alerts and
//! outputs, metrics, and the production eligibility rules.
use vstd::prelude::*;

use crate::decimal::{decimal_text, push_decimal, Decimal};
use crate::json::{json_text, Json};
use crate::text::{int_text, push_str, push_u128, nat_text, string_of};

verus! {

/// The first actionable alert of a window, frozen for replay.
#[derive(Debug)]
pub struct FrozenActionableAlert {
    pub created_at: i128,
    pub side: String,
    pub confidence: Decimal,
    pub limit_price: Decimal,
    pub suggested_size: Decimal,
    pub ttl_ms: i32,
    pub reason: String,
    pub features: Json,
    pub input_snapshot_hash: String,
}

/// What replaying one window gave.
#[derive(Debug)]
pub struct BacktestReplayOutput {
    pub market_key: String,
    pub window_start: i128,
    pub window_end: i128,
    pub alert: FrozenActionableAlert,
    pub open_price: Decimal,
    pub final_price: Decimal,
    pub won: bool,
    pub profit_loss: Decimal,
}

/// A candidate alert a model produced inside a window.
#[derive(Debug)]
pub struct ReplayWindowCandidate {
    pub created_at: i128,
    pub side: String,
    pub confidence: Decimal,
    pub limit_price: Decimal,
    pub suggested_size: Decimal,
    pub ttl_ms: i32,
    pub reason: String,
    pub features: Json,
    pub input_snapshot_hash: String,
}

/// A market window with its open and final prices and its candidates.
#[derive(Debug)]
pub struct ReplayWindow {
    pub market_key: String,
    pub window_start: i128,
    pub window_end: i128,
    pub open_price: Decimal,
    pub final_price: Decimal,
    pub candidates: Vec<ReplayWindowCandidate>,
}

/// Accuracy of the alerts whose confidence lies in a bucket.
#[derive(Debug)]
pub struct CalibrationBucket {
    pub lower_bound: Decimal,
    pub upper_bound: Decimal,
    pub trades: u64,
    pub wins: u64,
    pub accuracy: Decimal,
}

/// The metrics of a backtest run.
#[derive(Debug)]
pub struct BacktestMetrics {
    pub model_key: String,
    pub model_version: String,
    pub market_key: String,
    pub dataset: String,
    pub windows: u64,
    pub trades: u64,
    pub wins: u64,
    pub accuracy: Decimal,
    pub wilson_lower_bound: Decimal,
    pub coverage: Decimal,
    pub expected_value: Decimal,
    pub max_drawdown: Decimal,
    pub max_consecutive_losses: u64,
    pub average_price_paid: Decimal,
    pub calibration_buckets: Vec<CalibrationBucket>,
    pub parameters: Json,
}

/// The replay outputs and the metrics of a backtest.
#[derive(Debug)]
pub struct BacktestReplayResult {
    pub metrics: BacktestMetrics,
    pub replay_outputs: Vec<BacktestReplayOutput>,
}

/// The bars a model must clear before production.
#[derive(Debug)]
pub struct BacktestEligibilityPolicy {
    pub min_trades: u64,
    pub min_wilson_lower_bound: Decimal,
    pub min_coverage: Decimal,
    pub min_expected_value: Decimal,
    pub max_drawdown: Decimal,
    pub max_consecutive_losses: u64,
    pub max_average_price_paid: Decimal,
}

/// Whether a model may go to production, and why not.
#[derive(Debug, Clone, PartialEq, Eq)]
pub struct BacktestEligibility {
    pub eligible: bool,
    pub reasons: Vec<String>,
}

/// The `Display` text of a decimal.
pub open spec fn dtext(d: Decimal) -> Seq<char> {
    decimal_text(d.mantissa(), d.scale())
}

/// A one-reason list when `failed`, else empty.
pub open spec fn reason_if(failed: bool, reason: Seq<char>) -> Seq<Seq<char>> {
    if failed {
        seq![reason]
    } else {
        Seq::empty()
    }
}

/// Every bar the metrics miss, in the order trades, Wilson bound, coverage,
/// expected value, drawdown, losing streak, average price.
pub open spec fn eligibility_reasons(m: BacktestMetrics, p: BacktestEligibilityPolicy) -> Seq<Seq<char>> {
    reason_if(
        m.trades < p.min_trades,
        "min_trades not met: "@ + int_text(m.trades as int) + " < "@ + int_text(p.min_trades as int),
    ) + reason_if(
        m.wilson_lower_bound.lt(p.min_wilson_lower_bound),
        "min_wilson_lower_bound not met: "@ + dtext(m.wilson_lower_bound) + " < "@ + dtext(
            p.min_wilson_lower_bound,
        ),
    ) + reason_if(
        m.coverage.lt(p.min_coverage),
        "min_coverage not met: "@ + dtext(m.coverage) + " < "@ + dtext(p.min_coverage),
    ) + reason_if(
        m.expected_value.lt(p.min_expected_value),
        "min_expected_value not met: "@ + dtext(m.expected_value) + " < "@ + dtext(p.min_expected_value),
    ) + reason_if(
        p.max_drawdown.lt(m.max_drawdown),
        "max_drawdown exceeded: "@ + dtext(m.max_drawdown) + " > "@ + dtext(p.max_drawdown),
    ) + reason_if(
        m.max_consecutive_losses > p.max_consecutive_losses,
        "max_consecutive_losses exceeded: "@ + int_text(m.max_consecutive_losses as int) + " > "@
            + int_text(p.max_consecutive_losses as int),
    ) + reason_if(
        p.max_average_price_paid.lt(m.average_price_paid),
        "max_average_price_paid exceeded: "@ + dtext(m.average_price_paid) + " > "@ + dtext(
            p.max_average_price_paid,
        ),
    )
}

/// The texts of a list of reasons.
pub open spec fn reason_texts(v: Seq<String>) -> Seq<Seq<char>> {
    v.map_values(|s: String| s@)
}

/// "`label`: `a` `op` `b`" for two counts.
fn count_reason(label: &str, a: u64, op: &str, b: u64) -> (r: String)
    ensures
        r@ == label@ + int_text(a as int) + op@ + int_text(b as int),
{
    let mut s = string_of(label);
    let x = crate::text::u64_to_string(a);
    push_str(&mut s, x.as_str());
    push_str(&mut s, op);
    let y = crate::text::u64_to_string(b);
    push_str(&mut s, y.as_str());
    assert(s@ =~= label@ + int_text(a as int) + op@ + int_text(b as int));
    s
}

/// "`label`: `a` `op` `b`" for two decimals.
fn decimal_reason(label: &str, a: &Decimal, op: &str, b: &Decimal) -> (r: String)
    ensures
        r@ == label@ + dtext(*a) + op@ + dtext(*b),
{
    let mut s = string_of(label);
    let x = a.to_text();
    push_str(&mut s, x.as_str());
    push_str(&mut s, op);
    let y = b.to_text();
    push_str(&mut s, y.as_str());
    assert(s@ =~= label@ + dtext(*a) + op@ + dtext(*b));
    s
}

/// Appends a reason when `failed`.
fn push_reason(reasons: &mut Vec<String>, failed: bool, reason: String)
    ensures
        reason_texts(final(reasons)@) == reason_texts(old(reasons)@) + reason_if(failed, reason@),
{
    let ghost before = reasons@;
    if failed {
        reasons.push(reason);
        assert(reason_texts(reasons@) =~= reason_texts(before) + reason_if(failed, reason@));
    } else {
        assert(reason_texts(reasons@) =~= reason_texts(before) + reason_if(failed, reason@));
    }
}

impl BacktestMetrics {
    /// Checks the metrics against a policy: eligible exactly when no bar is
    /// missed, with one reason per missed bar.
    pub fn production_eligibility(&self, policy: &BacktestEligibilityPolicy) -> (r: BacktestEligibility)
        ensures
            reason_texts(r.reasons@) == eligibility_reasons(*self, *policy),
            r.eligible == (eligibility_reasons(*self, *policy).len() == 0),
    {
        let mut reasons: Vec<String> = Vec::new();
        assert(reason_texts(reasons@) =~= Seq::<Seq<char>>::empty());
        let r1 = count_reason("min_trades not met: ", self.trades, " < ", policy.min_trades);
        push_reason(&mut reasons, self.trades < policy.min_trades, r1);
        let r2 = decimal_reason(
            "min_wilson_lower_bound not met: ",
            &self.wilson_lower_bound,
            " < ",
            &policy.min_wilson_lower_bound,
        );
        push_reason(
            &mut reasons,
            self.wilson_lower_bound.less_than(&policy.min_wilson_lower_bound),
            r2,
        );
        let r3 = decimal_reason("min_coverage not met: ", &self.coverage, " < ", &policy.min_coverage);
        push_reason(&mut reasons, self.coverage.less_than(&policy.min_coverage), r3);
        let r4 = decimal_reason(
            "min_expected_value not met: ",
            &self.expected_value,
            " < ",
            &policy.min_expected_value,
        );
        push_reason(&mut reasons, self.expected_value.less_than(&policy.min_expected_value), r4);
        let r5 = decimal_reason("max_drawdown exceeded: ", &self.max_drawdown, " > ", &policy.max_drawdown);
        push_reason(&mut reasons, policy.max_drawdown.less_than(&self.max_drawdown), r5);
        let r6 = count_reason(
            "max_consecutive_losses exceeded: ",
            self.max_consecutive_losses,
            " > ",
            policy.max_consecutive_losses,
        );
        push_reason(&mut reasons, self.max_consecutive_losses > policy.max_consecutive_losses, r6);
        let r7 = decimal_reason(
            "max_average_price_paid exceeded: ",
            &self.average_price_paid,
            " > ",
            &policy.max_average_price_paid,
        );
        push_reason(
            &mut reasons,
            policy.max_average_price_paid.less_than(&self.average_price_paid),
            r7,
        );
        proof {
            assert(reason_texts(reasons@) =~= eligibility_reasons(*self, *policy));
        }
        let eligible = reasons.len() == 0;
        BacktestEligibility { eligible, reasons }
    }
}

/// A policy that every bar passes on, and metrics that meet every bar, give
/// eligibility; any missed bar makes the metrics ineligible.
pub proof fn eligibility_law(m: BacktestMetrics, p: BacktestEligibilityPolicy)
    ensures
        eligibility_reasons(m, p).len() == 0 <==> (p.min_trades <= m.trades
            && !m.wilson_lower_bound.lt(p.min_wilson_lower_bound) && !m.coverage.lt(p.min_coverage)
            && !m.expected_value.lt(p.min_expected_value) && !p.max_drawdown.lt(m.max_drawdown)
            && m.max_consecutive_losses <= p.max_consecutive_losses
            && !p.max_average_price_paid.lt(m.average_price_paid)),
{
}

} // verus!
