//! Backtests: replaying windows into frozen alerts and outcomes, the exact
//! parts of the metrics, and production eligibility.
pub mod types;
pub mod engine;
pub mod metrics;
