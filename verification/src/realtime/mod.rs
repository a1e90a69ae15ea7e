//! Realtime market data: market keys, ticks and snapshots, market windows,
//! normalization of source payloads, candles and the live state they feed.
pub mod types;
pub mod window;
pub mod normalize;
pub mod collector;
pub mod candle;
pub mod state;
pub mod bus;
pub mod storage_bridge;
pub mod runtime;
