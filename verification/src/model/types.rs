//! The model contract: the context a model decides on, and its decision.
use vstd::prelude::*;

use crate::decimal::Decimal;
use crate::json::Json;
use crate::realtime::types::MarketKey;
use crate::text::string_of;

verus! {

/// The model assigned to a market.
#[derive(Debug)]
pub struct ModelAssignment {
    pub model_key: String,
    pub model_version: String,
    pub parameters: Json,
}

/// The market window being decided on.
#[derive(Debug, Clone)]
pub struct ModelWindow {
    pub event_slug: String,
    pub start_ts: i128,
    pub end_ts: i128,
    pub elapsed_ms: i64,
}

/// The latest tick.
#[derive(Debug, Clone)]
pub struct ModelTickInput {
    pub source: String,
    pub source_ts: i128,
    pub received_at: i128,
    pub price: Decimal,
    pub size: Option<Decimal>,
    pub sequence: Option<i64>,
}

/// One candle of the window.
#[derive(Debug, Clone)]
pub struct ModelCandle {
    pub start_ts: i128,
    pub open: Decimal,
    pub high: Decimal,
    pub low: Decimal,
    pub close: Decimal,
    pub volume: Decimal,
}

/// The Polymarket prices of the window.
#[derive(Debug, Clone)]
pub struct ModelPolymarket {
    pub event_slug: String,
    pub up_price: Option<Decimal>,
    pub down_price: Option<Decimal>,
    pub spread: Option<Decimal>,
    pub liquidity: Option<Decimal>,
}

/// Portfolio limits.
#[derive(Debug, Clone)]
pub struct ModelPortfolio {
    pub bankroll: Decimal,
    pub max_signal_size: Decimal,
}

/// Everything a model decides on.
#[derive(Debug)]
pub struct ModelContext {
    pub market_key: MarketKey,
    pub symbol: String,
    pub assignment: ModelAssignment,
    pub window: ModelWindow,
    pub latest_tick: ModelTickInput,
    pub candles: Vec<ModelCandle>,
    pub polymarket: ModelPolymarket,
    pub portfolio: ModelPortfolio,
}

/// What a decision recommends.
#[derive(Debug, Clone, Copy, PartialEq, Eq, Structural)]
pub enum ModelAction {
    NoTrade,
    Candidate,
}

/// The side of a candidate.
#[derive(Debug, Clone, Copy, PartialEq, Eq, Structural)]
pub enum ModelSide {
    Up,
    Down,
}

/// A trade candidate.
#[derive(Debug)]
pub struct ModelCandidate {
    pub side: ModelSide,
    pub confidence: Decimal,
    pub limit_price: Decimal,
    pub suggested_size: Decimal,
    pub ttl_ms: i32,
    pub reason: String,
    pub features: Json,
}

/// A model's decision.
#[derive(Debug, PartialEq)]
pub struct ModelDecision {
    pub action: ModelAction,
    pub side: Option<ModelSide>,
    pub confidence: Option<Decimal>,
    pub limit_price: Option<Decimal>,
    pub suggested_size: Option<Decimal>,
    pub ttl_ms: Option<i32>,
    pub reason: String,
    pub features: Json,
}

/// A backtest summary.
#[derive(Debug)]
pub struct BacktestResult {
    pub model_key: String,
    pub model_version: String,
    pub dataset: String,
    pub trades: u64,
    pub wins: u64,
    pub accuracy: Decimal,
    pub wilson_lower_bound: Decimal,
    pub coverage: Decimal,
    pub max_drawdown: Decimal,
    pub parameters: Json,
}

impl ModelDecision {
    /// A decision not to trade, with an empty feature snapshot.
    pub fn no_trade(reason: &str) -> (r: ModelDecision)
        ensures
            r.action == ModelAction::NoTrade,
            r.side.is_none(),
            r.confidence.is_none(),
            r.limit_price.is_none(),
            r.suggested_size.is_none(),
            r.ttl_ms.is_none(),
            r.reason@ == reason@,
            r.features is Object && r.features->Object_0@.len() == 0,
    {
        ModelDecision {
            action: ModelAction::NoTrade,
            side: None,
            confidence: None,
            limit_price: None,
            suggested_size: None,
            ttl_ms: None,
            reason: string_of(reason),
            features: Json::Object(Vec::new()),
        }
    }

    /// A candidate decision carrying every field of the candidate.
    pub fn candidate(candidate: ModelCandidate) -> (r: ModelDecision)
        ensures
            r.action == ModelAction::Candidate,
            r.side == Some(candidate.side),
            r.confidence == Some(candidate.confidence),
            r.limit_price == Some(candidate.limit_price),
            r.suggested_size == Some(candidate.suggested_size),
            r.ttl_ms == Some(candidate.ttl_ms),
            r.reason == candidate.reason,
            r.features == candidate.features,
    {
        ModelDecision {
            action: ModelAction::Candidate,
            side: Some(candidate.side),
            confidence: Some(candidate.confidence),
            limit_price: Some(candidate.limit_price),
            suggested_size: Some(candidate.suggested_size),
            ttl_ms: Some(candidate.ttl_ms),
            reason: candidate.reason,
            features: candidate.features,
        }
    }

    /// The candidate's time to live.
    pub fn ttl_ms(&self) -> (r: Option<i32>)
        ensures
            r == self.ttl_ms,
    {
        self.ttl_ms
    }

    /// The feature snapshot.
    pub fn features(&self) -> (r: &Json)
        ensures
            *r == self.features,
    {
        &self.features
    }
}

} // verus!
