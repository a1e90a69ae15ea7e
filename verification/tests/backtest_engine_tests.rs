use polymarket_backend::backtest::engine::{candidate_won, first_frozen_output, profit_loss, replay_outputs};
use polymarket_backend::backtest::metrics::{
    count_wins, max_consecutive_losses, max_drawdown_of, metrics_market_key, output_profit_loss,
    total_profit_loss,
};
use polymarket_backend::backtest::types::{
    BacktestEligibilityPolicy, BacktestMetrics, BacktestReplayOutput, ReplayWindow, ReplayWindowCandidate,
};
use polymarket_backend::decimal::Decimal;
use polymarket_backend::json::Json;

const NANOS: i128 = 1_000_000_000;

fn bd(value: &str) -> Decimal {
    Decimal::parse(value).expect("decimal literal")
}

fn candidate(created_at: i128, side: &str, confidence: &str, limit_price: &str, reason: &str) -> ReplayWindowCandidate {
    ReplayWindowCandidate {
        created_at,
        side: side.to_string(),
        confidence: bd(confidence),
        limit_price: bd(limit_price),
        suggested_size: bd("1.0"),
        ttl_ms: 15_000,
        reason: reason.to_string(),
        features: Json::Object(vec![("source".to_string(), Json::Str("test".to_string()))]),
        input_snapshot_hash: format!("snapshot-{side}-{reason}"),
    }
}

fn window(start: i128, open: &str, close: &str, candidates: Vec<ReplayWindowCandidate>) -> ReplayWindow {
    ReplayWindow {
        market_key: "btc5m".to_string(),
        window_start: start,
        window_end: start + 300 * NANOS,
        open_price: bd(open),
        final_price: bd(close),
        candidates,
    }
}

fn sample_windows() -> Vec<ReplayWindow> {
    vec![
        window(0, "100", "101", vec![candidate(90 * NANOS, "Up", "0.70", "0.50", "long")]),
        window(300 * NANOS, "101", "99", vec![candidate(360 * NANOS, "Down", "0.65", "0.52", "short")]),
    ]
}

/// The metrics a replay of `sample_windows` reports: two trades in two
/// windows, both won.
fn sample_metrics() -> BacktestMetrics {
    let outputs = replay_outputs(&sample_windows());
    BacktestMetrics {
        model_key: "baseline_direction".to_string(),
        model_version: "0.1.0".to_string(),
        market_key: metrics_market_key("btc5m:test", &outputs),
        dataset: "btc5m:test".to_string(),
        windows: 2,
        trades: outputs.len() as u64,
        wins: count_wins(&outputs),
        accuracy: bd("1"),
        wilson_lower_bound: bd("0.342371953"),
        coverage: bd("1"),
        expected_value: bd("0.49"),
        max_drawdown: bd("0"),
        max_consecutive_losses: max_consecutive_losses(&outputs),
        average_price_paid: bd("0.51"),
        calibration_buckets: Vec::new(),
        parameters: Json::Object(Vec::new()),
    }
}

#[test]
fn replay_freezes_first_actionable_alert_per_window() {
    let windows = vec![window(
        0,
        "100",
        "101",
        vec![
            candidate(90 * NANOS, "Down", "0.57", "0.50", "first"),
            candidate(180 * NANOS, "Up", "0.90", "0.50", "later-better"),
        ],
    )];

    let outputs = replay_outputs(&windows);

    assert_eq!(outputs.len(), 1);
    assert_eq!(outputs[0].alert.side, "Down");
    assert_eq!(outputs[0].alert.reason, "first");
    assert!(!outputs[0].won);
    assert_eq!(outputs[0].profit_loss.to_text(), "-0.5");
    assert_eq!(outputs.len() as u64, 1);
    assert_eq!(count_wins(&outputs), 0);
}

#[test]
fn replay_ignores_windows_without_actionable_candidates_for_coverage() {
    let windows = vec![
        window(0, "100", "101", Vec::new()),
        window(300 * NANOS, "101", "99", vec![candidate(360 * NANOS, "Down", "0.65", "0.52", "short")]),
    ];

    let outputs = replay_outputs(&windows);

    assert_eq!(windows.len(), 2);
    assert_eq!(outputs.len(), 1);
    assert_eq!(count_wins(&outputs), 1);
    assert_eq!(outputs[0].window_start, 300 * NANOS);
}

#[test]
fn replay_is_deterministic_for_same_inputs() {
    let first = replay_outputs(&sample_windows());
    let second = replay_outputs(&sample_windows());

    assert_eq!(first.len(), second.len());
    for (a, b) in first.iter().zip(second.iter()) {
        assert_eq!(a.alert.input_snapshot_hash, b.alert.input_snapshot_hash);
        assert_eq!(a.won, b.won);
        assert_eq!(a.profit_loss, b.profit_loss);
    }
}

#[test]
fn eligibility_requires_enough_recent_trades_wilson_floor_and_coverage() {
    let policy = BacktestEligibilityPolicy {
        min_trades: 20,
        min_wilson_lower_bound: bd("0.55"),
        min_coverage: bd("0.20"),
        min_expected_value: bd("0"),
        max_drawdown: bd("5"),
        max_consecutive_losses: 5,
        max_average_price_paid: bd("0.70"),
    };
    let metrics = sample_metrics();

    let eligibility = metrics.production_eligibility(&policy);

    assert!(!eligibility.eligible);
    assert!(eligibility.reasons.iter().any(|reason| reason.contains("min_trades")));
    assert_eq!(eligibility.reasons[0], "min_trades not met: 2 < 20");
    assert_eq!(eligibility.reasons[1], "min_wilson_lower_bound not met: 0.342371953 < 0.55");
    assert_eq!(eligibility.reasons.len(), 2);
}

#[test]
fn eligibility_rejects_negative_ev_and_excessive_risk_even_when_stats_pass() {
    let mut metrics = sample_metrics();
    metrics.trades = 30;
    metrics.wilson_lower_bound = bd("0.60");
    metrics.coverage = bd("0.50");
    metrics.expected_value = bd("-0.01");
    metrics.max_drawdown = bd("8");
    metrics.max_consecutive_losses = 6;
    metrics.average_price_paid = bd("0.72");

    let policy = BacktestEligibilityPolicy {
        min_trades: 20,
        min_wilson_lower_bound: bd("0.55"),
        min_coverage: bd("0.20"),
        min_expected_value: bd("0"),
        max_drawdown: bd("5"),
        max_consecutive_losses: 5,
        max_average_price_paid: bd("0.70"),
    };

    let eligibility = metrics.production_eligibility(&policy);

    assert!(!eligibility.eligible);
    assert!(eligibility.reasons.iter().any(|reason| reason.contains("min_expected_value")));
    assert!(eligibility.reasons.iter().any(|reason| reason.contains("max_drawdown")));
    assert!(eligibility.reasons.iter().any(|reason| reason.contains("max_average_price_paid")));
    assert!(eligibility.reasons.iter().any(|reason| reason.contains("max_consecutive_losses")));
    assert_eq!(eligibility.reasons[1], "max_drawdown exceeded: 8 > 5");
}

#[test]
fn eligibility_passes_when_every_bar_is_met() {
    let mut metrics = sample_metrics();
    metrics.trades = 40;
    metrics.wilson_lower_bound = bd("0.60");
    let policy = BacktestEligibilityPolicy {
        min_trades: 20,
        min_wilson_lower_bound: bd("0.55"),
        min_coverage: bd("0.20"),
        min_expected_value: bd("0"),
        max_drawdown: bd("5"),
        max_consecutive_losses: 5,
        max_average_price_paid: bd("0.70"),
    };
    let eligibility = metrics.production_eligibility(&policy);
    assert!(eligibility.eligible);
    assert!(eligibility.reasons.is_empty());
}

#[test]
fn won_sides_and_profit_or_loss() {
    let up = window(0, "100", "101", vec![candidate(1, "Up", "0.6", "0.5", "u")]);
    let flat = window(0, "100", "100", vec![candidate(1, "Down", "0.6", "0.5", "d")]);
    assert!(candidate_won(&up.candidates[0], &up));
    assert!(!candidate_won(&flat.candidates[0], &flat));
    let other = candidate(1, "Sideways", "0.6", "0.5", "s");
    assert!(!candidate_won(&other, &up));
    assert_eq!(profit_loss(&bd("0.52"), &bd("2.0"), true).to_text(), "0.960");
    assert_eq!(profit_loss(&bd("0.52"), &bd("2.0"), false), bd("-1.04"));
    assert!(first_frozen_output(&window(0, "1", "2", Vec::new())).is_none());
}

fn output(won: bool) -> BacktestReplayOutput {
    let w = window(0, "100", "101", vec![candidate(1, "Up", "0.6", "0.5", "x")]);
    let mut o = first_frozen_output(&w).expect("one candidate");
    o.won = won;
    o
}

#[test]
fn losing_streaks_wins_and_run_market() {
    let outputs = vec![output(false), output(false), output(true), output(false), output(false), output(false)];
    assert_eq!(max_consecutive_losses(&outputs), 3);
    assert_eq!(count_wins(&outputs), 1);
    assert_eq!(metrics_market_key("eth15m:1", &Vec::new()), "eth15m");
    assert_eq!(metrics_market_key("plain", &Vec::new()), "plain");
    assert_eq!(metrics_market_key("eth15m:1", &outputs), "btc5m");
    assert_eq!(output_profit_loss(&output(true)), bd("0.5"));
}

#[test]
fn profit_total_and_drawdown_are_exact() {
    let outputs = vec![output(false), output(false), output(true), output(false)];
    assert_eq!(total_profit_loss(&outputs), bd("-1.0"));
    assert_eq!(max_drawdown_of(&outputs), bd("1.0"));
    assert_eq!(total_profit_loss(&Vec::new()), bd("0"));
    assert_eq!(max_drawdown_of(&Vec::new()), bd("0"));
    let rising = vec![output(true), output(true)];
    assert_eq!(max_drawdown_of(&rising), bd("0"));
    assert_eq!(total_profit_loss(&rising), bd("1"));
}
