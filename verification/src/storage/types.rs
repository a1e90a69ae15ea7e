//! Storage records. Ids are 128-bit UUID values; timestamps are nanoseconds
//! since the Unix epoch.
use vstd::prelude::*;
use vstd::arithmetic::power2::pow2;

use uuid::Uuid;

use crate::decimal::Decimal;
use crate::json::Json;

verus! {

/// The lower-case hex digit of a value below sixteen.
pub open spec fn nibble_char(d: int) -> char {
    if d < 10 {
        ((d + 48) as u8) as char
    } else {
        ((d + 87) as u8) as char
    }
}

/// The `k`-th hex digit of a 128-bit value, counting from the most significant.
pub open spec fn hex_digit_at(id: u128, k: int) -> char {
    nibble_char((id as int / pow2((4 * (31 - k)) as nat) as int) % 16)
}

/// How many hyphens stand before position `i` of a hyphenated UUID.
pub open spec fn hyphens_before(i: int) -> int {
    if i < 8 {
        0
    } else if i < 13 {
        1
    } else if i < 18 {
        2
    } else if i < 23 {
        3
    } else {
        4
    }
}

/// The hyphenated lower-case text of a UUID: its 32 hex digits, most
/// significant first, in groups of 8, 4, 4, 4 and 12 joined by hyphens.
pub open spec fn uuid_text(id: u128) -> Seq<char> {
    Seq::new(
        36,
        |i: int|
            if i == 8 || i == 13 || i == 18 || i == 23 {
                '-'
            } else {
                hex_digit_at(id, i - hyphens_before(i))
            },
    )
}

/// `Uuid::from_u128(id).to_string()`: `from_u128` takes the value's big-endian
/// bytes, and `Display` writes each byte as two lower-case hex digits, with a
/// hyphen after the 4th, 6th, 8th and 10th byte.
#[verifier::external_body]
pub fn uuid_to_string(id: u128) -> (r: String)
    ensures
        r@ == uuid_text(id),
{
    Uuid::from_u128(id).to_string()
}

/// A tick to persist.
#[derive(Debug)]
pub struct NewTick {
    pub market_id: u128,
    pub source: String,
    pub source_ts: i128,
    pub received_at: i128,
    pub price: Decimal,
    pub size: Option<Decimal>,
    pub sequence: Option<i64>,
}

/// A signal joined with its market key.
#[derive(Debug)]
pub struct SignalWithMarketRecord {
    pub id: u128,
    pub market_key: String,
    pub market_window_id: u128,
    pub model_version_id: u128,
    pub signal_type: String,
    pub side: Option<String>,
    pub confidence: Option<Decimal>,
    pub limit_price: Option<Decimal>,
    pub suggested_size: Option<Decimal>,
    pub ttl_ms: Option<i32>,
    pub reason: String,
    pub features: Json,
    pub input_snapshot_hash: String,
    pub created_at: i128,
}

/// A notification channel as stored.
#[derive(Debug, Clone)]
pub struct NotificationChannelRecord {
    pub id: u128,
    pub market_key: String,
    pub channel_type: String,
    pub name: String,
    pub webhook_url: String,
    pub enabled: bool,
    pub created_at: i128,
}

/// A notification channel to create or update.
#[derive(Debug, Clone)]
pub struct NewNotificationChannel {
    pub market_key: String,
    pub channel_type: String,
    pub name: String,
    pub webhook_url: String,
    pub enabled: bool,
}

/// The audit row of one delivery.
#[derive(Debug, Clone)]
pub struct NewNotificationDelivery {
    pub signal_id: u128,
    pub channel_id: u128,
    pub dedupe_key: String,
    pub status: String,
    pub attempt_count: i32,
    pub response_summary: Option<String>,
}

/// A runtime event to record.
#[derive(Debug)]
pub struct NewRuntimeEvent {
    pub component: String,
    pub severity: String,
    pub event_type: String,
    pub message: String,
    pub details: Json,
}

/// A stored one-minute candle of a market.
#[derive(Debug)]
pub struct CandleRecord {
    pub market_key: String,
    pub start_ts: i128,
    pub open: Decimal,
    pub high: Decimal,
    pub low: Decimal,
    pub close: Decimal,
    pub volume: Decimal,
}

/// The model assigned to a market.
#[derive(Debug)]
pub struct ModelAssignmentRecord {
    pub market_key: String,
    pub model_key: String,
    pub display_name: String,
    pub version: String,
    pub parameters: Json,
    pub status: String,
    pub created_at: i128,
}

/// A model assignment to make active.
#[derive(Debug)]
pub struct NewModelAssignment {
    pub market_key: String,
    pub model_key: String,
    pub display_name: String,
    pub version: String,
    pub parameters: Json,
}

/// A delivery joined with its channel.
#[derive(Debug)]
pub struct NotificationDeliveryRecord {
    pub id: u128,
    pub market_key: String,
    pub signal_id: u128,
    pub channel_id: u128,
    pub channel_type: String,
    pub channel_name: String,
    pub status: String,
    pub attempt_count: i32,
    pub response_summary: Option<String>,
    pub created_at: i128,
    pub updated_at: i128,
}

/// A stored backtest run.
#[derive(Debug)]
pub struct BacktestRunRecord {
    pub id: u128,
    pub market_key: String,
    pub model_key: String,
    pub display_name: String,
    pub model_version: String,
    pub parameters: Json,
    pub started_at: i128,
    pub finished_at: Option<i128>,
    pub window_start: i128,
    pub window_end: i128,
    pub metrics: Json,
    pub status: String,
}

} // verus!
