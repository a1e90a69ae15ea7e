//! Market keys, ticks, Polymarket snapshots and realtime errors. Timestamps are
//! nanoseconds since the Unix epoch (UTC).
use vstd::prelude::*;

use crate::decimal::Decimal;
use crate::json::{json_text, Json};
use crate::text::{push_str, str_eq, string_of};

verus! {

/// Nanoseconds in one second.
pub const NANOS_PER_SECOND: i128 = 1_000_000_000;

/// Earliest second that `time`'s `OffsetDateTime` accepts without its
/// `large-dates` feature: the midnight that starts its minimum date, in year
/// -9999 (by `time`'s own day count).
pub const MIN_UNIX_SECONDS: i128 = -377_705_116_800;

/// Latest second that `time`'s `OffsetDateTime` accepts without its
/// `large-dates` feature: 9999-12-31T23:59:59Z.
pub const MAX_UNIX_SECONDS: i128 = 253_402_300_799;

/// The markets this backend follows.
#[derive(Debug, Clone, Copy, PartialEq, Eq, Structural, PartialOrd, Ord, Hash)]
pub enum MarketKey {
    Btc5m,
    Eth15m,
}

impl MarketKey {
    /// The market's key text.
    pub open spec fn name(self) -> Seq<char> {
        match self {
            MarketKey::Btc5m => "btc5m"@,
            MarketKey::Eth15m => "eth15m"@,
        }
    }

    /// The Coinbase product that prices the market.
    pub open spec fn product(self) -> Seq<char> {
        match self {
            MarketKey::Btc5m => "BTC-USD"@,
            MarketKey::Eth15m => "ETH-USD"@,
        }
    }

    /// Length of one market window in seconds.
    pub open spec fn interval(self) -> int {
        match self {
            MarketKey::Btc5m => 300,
            MarketKey::Eth15m => 900,
        }
    }

    /// The market's key text.
    pub fn as_str(&self) -> (r: &'static str)
        ensures
            r@ == self.name(),
    {
        match self {
            MarketKey::Btc5m => "btc5m",
            MarketKey::Eth15m => "eth15m",
        }
    }

    /// The Coinbase product symbol.
    pub fn symbol(&self) -> (r: &'static str)
        ensures
            r@ == self.product(),
    {
        match self {
            MarketKey::Btc5m => "BTC-USD",
            MarketKey::Eth15m => "ETH-USD",
        }
    }

    /// Length of one market window in seconds.
    pub fn interval_seconds(&self) -> (r: i64)
        ensures
            r == self.interval(),
    {
        match self {
            MarketKey::Btc5m => 300,
            MarketKey::Eth15m => 900,
        }
    }

    /// The market priced by a Coinbase product.
    pub fn from_coinbase_product(product_id: &str) -> (r: Result<MarketKey, RealtimeError>)
        ensures
            r == Ok::<MarketKey, RealtimeError>(MarketKey::Btc5m) <==> product_id@ == "BTC-USD"@,
            r == Ok::<MarketKey, RealtimeError>(MarketKey::Eth15m) <==> product_id@ == "ETH-USD"@,
            r is Err ==> r->Err_0 is UnsupportedProduct && r->Err_0->UnsupportedProduct_0@
                == product_id@,
    {
        proof {
            reveal_strlit("BTC-USD");
            reveal_strlit("ETH-USD");
            assert("BTC-USD"@[0] != "ETH-USD"@[0]);
        }
        if str_eq(product_id, "BTC-USD") {
            Ok(MarketKey::Btc5m)
        } else if str_eq(product_id, "ETH-USD") {
            Ok(MarketKey::Eth15m)
        } else {
            Err(RealtimeError::UnsupportedProduct(string_of(product_id)))
        }
    }

    /// Parses a market key text (`FromStr`).
    pub fn parse(value: &str) -> (r: Result<MarketKey, RealtimeError>)
        ensures
            r == Ok::<MarketKey, RealtimeError>(MarketKey::Btc5m) <==> value@ == "btc5m"@,
            r == Ok::<MarketKey, RealtimeError>(MarketKey::Eth15m) <==> value@ == "eth15m"@,
            r is Ok ==> r->Ok_0.name() == value@,
            r is Err ==> r->Err_0 is UnsupportedMarket && r->Err_0->UnsupportedMarket_0@
                == value@,
    {
        proof {
            reveal_strlit("btc5m");
            reveal_strlit("eth15m");
            assert("btc5m"@.len() != "eth15m"@.len());
        }
        if str_eq(value, "btc5m") {
            Ok(MarketKey::Btc5m)
        } else if str_eq(value, "eth15m") {
            Ok(MarketKey::Eth15m)
        } else {
            Err(RealtimeError::UnsupportedMarket(string_of(value)))
        }
    }
}

/// A normalized trade tick.
#[derive(Debug, Clone)]
pub struct MarketTick {
    pub market_key: MarketKey,
    pub symbol: String,
    pub source: String,
    pub source_ts: i128,
    pub received_at: i128,
    pub price: Decimal,
    pub size: Option<Decimal>,
    pub sequence: Option<i64>,
}

/// A normalized Polymarket Up/Down market snapshot.
#[derive(Debug)]
pub struct PolymarketSnapshot {
    pub market_key: MarketKey,
    pub event_slug: String,
    pub captured_at: i128,
    pub up_price: Option<Decimal>,
    pub down_price: Option<Decimal>,
    pub spread: Option<Decimal>,
    pub liquidity: Option<Decimal>,
    pub payload: Json,
}

/// An event on the realtime bus.
#[derive(Debug)]
pub enum RealtimeEvent {
    Tick(MarketTick),
    PolymarketSnapshot(PolymarketSnapshot),
    SourceHeartbeat { source: String, received_at: i128 },
}

/// A bus event as seen by contracts.
pub enum RealtimeEventView {
    Tick(MarketTickView),
    PolymarketSnapshot(Seq<char>),
    SourceHeartbeat(Seq<char>, int),
}

impl View for RealtimeEvent {
    type V = RealtimeEventView;

    open spec fn view(&self) -> RealtimeEventView {
        match self {
            RealtimeEvent::Tick(t) => RealtimeEventView::Tick(t@),
            RealtimeEvent::PolymarketSnapshot(s) => RealtimeEventView::PolymarketSnapshot(
                s.event_slug@,
            ),
            RealtimeEvent::SourceHeartbeat { source, received_at } => {
                RealtimeEventView::SourceHeartbeat(source@, *received_at as int)
            },
        }
    }
}

/// Two snapshots of the same market, slug, capture time, prices and payload
/// text.
pub open spec fn same_snapshot(a: PolymarketSnapshot, b: PolymarketSnapshot) -> bool {
    &&& a.market_key == b.market_key
    &&& a.event_slug@ == b.event_slug@
    &&& a.captured_at == b.captured_at
    &&& opt_parts(a.up_price) == opt_parts(b.up_price)
    &&& opt_parts(a.down_price) == opt_parts(b.down_price)
    &&& opt_parts(a.spread) == opt_parts(b.spread)
    &&& opt_parts(a.liquidity) == opt_parts(b.liquidity)
    &&& json_text(a.payload) == json_text(b.payload)
}

fn copy_decimal(d: &Option<Decimal>) -> (r: Option<Decimal>)
    ensures
        opt_parts(r) == opt_parts(*d),
{
    match d {
        Some(v) => Some(v.copy()),
        None => None,
    }
}

impl PolymarketSnapshot {
    /// A copy of the snapshot.
    pub fn copy(&self) -> (r: PolymarketSnapshot)
        ensures
            same_snapshot(r, *self),
    {
        PolymarketSnapshot {
            market_key: self.market_key,
            event_slug: self.event_slug.clone(),
            captured_at: self.captured_at,
            up_price: copy_decimal(&self.up_price),
            down_price: copy_decimal(&self.down_price),
            spread: copy_decimal(&self.spread),
            liquidity: copy_decimal(&self.liquidity),
            payload: self.payload.copy(),
        }
    }
}

impl RealtimeEvent {
    /// A copy of the event (a snapshot is copied whole).
    pub fn copy(&self) -> (r: RealtimeEvent)
        ensures
            r@ == self@,
            match (r, *self) {
                (RealtimeEvent::PolymarketSnapshot(a), RealtimeEvent::PolymarketSnapshot(b)) => same_snapshot(a, b),
                (RealtimeEvent::PolymarketSnapshot(_), _) => false,
                (_, RealtimeEvent::PolymarketSnapshot(_)) => false,
                _ => true,
            },
    {
        match self {
            RealtimeEvent::Tick(t) => RealtimeEvent::Tick(t.copy()),
            RealtimeEvent::PolymarketSnapshot(p) => RealtimeEvent::PolymarketSnapshot(p.copy()),
            RealtimeEvent::SourceHeartbeat { source, received_at } => RealtimeEvent::SourceHeartbeat {
                source: source.clone(),
                received_at: *received_at,
            },
        }
    }
}

/// Errors of the realtime pipeline.
#[derive(Debug, PartialEq, Eq)]
pub enum RealtimeError {
    UnsupportedMarket(String),
    UnsupportedProduct(String),
    MissingField(&'static str),
    InvalidDecimal { field: &'static str, value: String },
    InvalidTimestamp { field: &'static str, value: String },
    InvalidInteger { field: &'static str, value: String },
    QueueFull,
    QueueClosed,
}

/// An error with its texts as character sequences.
pub enum RealtimeErrorView {
    UnsupportedMarket(Seq<char>),
    UnsupportedProduct(Seq<char>),
    MissingField(Seq<char>),
    InvalidDecimal(Seq<char>, Seq<char>),
    InvalidTimestamp(Seq<char>, Seq<char>),
    InvalidInteger(Seq<char>, Seq<char>),
    QueueFull,
    QueueClosed,
}

impl View for RealtimeError {
    type V = RealtimeErrorView;

    open spec fn view(&self) -> RealtimeErrorView {
        match self {
            RealtimeError::UnsupportedMarket(m) => RealtimeErrorView::UnsupportedMarket(m@),
            RealtimeError::UnsupportedProduct(p) => RealtimeErrorView::UnsupportedProduct(p@),
            RealtimeError::MissingField(f) => RealtimeErrorView::MissingField(f@),
            RealtimeError::InvalidDecimal { field, value } => RealtimeErrorView::InvalidDecimal(
                field@,
                value@,
            ),
            RealtimeError::InvalidTimestamp { field, value } => RealtimeErrorView::InvalidTimestamp(
                field@,
                value@,
            ),
            RealtimeError::InvalidInteger { field, value } => RealtimeErrorView::InvalidInteger(
                field@,
                value@,
            ),
            RealtimeError::QueueFull => RealtimeErrorView::QueueFull,
            RealtimeError::QueueClosed => RealtimeErrorView::QueueClosed,
        }
    }
}

/// A tick with texts as character sequences and decimals as (mantissa, scale).
pub struct MarketTickView {
    pub market_key: MarketKey,
    pub symbol: Seq<char>,
    pub source: Seq<char>,
    pub source_ts: int,
    pub received_at: int,
    pub price: (int, int),
    pub size: Option<(int, int)>,
    pub sequence: Option<i64>,
}

/// (mantissa, scale) of an optional decimal.
pub open spec fn opt_parts(d: Option<Decimal>) -> Option<(int, int)> {
    match d {
        Some(v) => Some(v.parts()),
        None => None,
    }
}

impl View for MarketTick {
    type V = MarketTickView;

    open spec fn view(&self) -> MarketTickView {
        MarketTickView {
            market_key: self.market_key,
            symbol: self.symbol@,
            source: self.source@,
            source_ts: self.source_ts as int,
            received_at: self.received_at as int,
            price: self.price.parts(),
            size: opt_parts(self.size),
            sequence: self.sequence,
        }
    }
}

impl MarketTick {
    /// A copy with the same view.
    pub fn copy(&self) -> (r: MarketTick)
        ensures
            r@ == self@,
    {
        MarketTick {
            market_key: self.market_key,
            symbol: self.symbol.clone(),
            source: self.source.clone(),
            source_ts: self.source_ts,
            received_at: self.received_at,
            price: self.price.copy(),
            size: match &self.size {
                Some(s) => Some(s.copy()),
                None => None,
            },
            sequence: self.sequence,
        }
    }
}

impl RealtimeError {
    /// The error message, as `Display` writes it.
    pub open spec fn message_spec(self) -> Seq<char> {
        match self {
            RealtimeError::UnsupportedMarket(m) => "unsupported market: "@ + m@,
            RealtimeError::UnsupportedProduct(p) => "unsupported Coinbase product: "@ + p@,
            RealtimeError::MissingField(f) => "missing field: "@ + f@,
            RealtimeError::InvalidDecimal { field, value } => "invalid decimal field "@ + field@ + ": "@ + value@,
            RealtimeError::InvalidTimestamp { field, value } => "invalid timestamp field "@ + field@ + ": "@
                + value@,
            RealtimeError::InvalidInteger { field, value } => "invalid integer field "@ + field@ + ": "@ + value@,
            RealtimeError::QueueFull => "realtime queue is full"@,
            RealtimeError::QueueClosed => "realtime queue is closed"@,
        }
    }

    /// The error message.
    pub fn message(&self) -> (r: String)
        ensures
            r@ == self.message_spec(),
    {
        let mut s = String::new();
        match self {
            RealtimeError::UnsupportedMarket(m) => {
                push_str(&mut s, "unsupported market: ");
                push_str(&mut s, m.as_str());
            },
            RealtimeError::UnsupportedProduct(p) => {
                push_str(&mut s, "unsupported Coinbase product: ");
                push_str(&mut s, p.as_str());
            },
            RealtimeError::MissingField(f) => {
                push_str(&mut s, "missing field: ");
                push_str(&mut s, f);
            },
            RealtimeError::InvalidDecimal { field, value } => {
                push_str(&mut s, "invalid decimal field ");
                push_str(&mut s, field);
                push_str(&mut s, ": ");
                push_str(&mut s, value.as_str());
            },
            RealtimeError::InvalidTimestamp { field, value } => {
                push_str(&mut s, "invalid timestamp field ");
                push_str(&mut s, field);
                push_str(&mut s, ": ");
                push_str(&mut s, value.as_str());
            },
            RealtimeError::InvalidInteger { field, value } => {
                push_str(&mut s, "invalid integer field ");
                push_str(&mut s, field);
                push_str(&mut s, ": ");
                push_str(&mut s, value.as_str());
            },
            RealtimeError::QueueFull => push_str(&mut s, "realtime queue is full"),
            RealtimeError::QueueClosed => push_str(&mut s, "realtime queue is closed"),
        }
        assert(s@ =~= self.message_spec());
        s
    }
}

} // verus!
