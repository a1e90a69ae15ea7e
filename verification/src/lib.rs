//! Verified core of the Polymarket signal cockpit backend: market windows,
//! tick normalization, candles, sizing, the baseline model, backtest replay,
//! eligibility rules and notification rendering.
pub mod text;
pub mod decimal;
pub mod json;
pub mod realtime;
pub mod config;
pub mod model;
pub mod timefmt;
pub mod queue;
pub mod storage;
pub mod notification;
pub mod backtest;
pub mod api;
pub mod health;
