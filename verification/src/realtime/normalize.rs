//! Normalization of source payloads into ticks and Polymarket snapshots.
use vstd::prelude::*;

use crate::decimal::{at, decimal_difference, magnitude, parsed_decimal, parts_le, top, Decimal};
use crate::json::{json_get, json_text, Json};
use crate::realtime::types::{
    opt_parts, MarketKey, MarketTick, MarketTickView, PolymarketSnapshot, RealtimeError,
    RealtimeErrorView,
};
use crate::text::{parse_i64, parse_i64_str, string_of};
use crate::timefmt::{parse_rfc3339, rfc3339_instant};

verus! {

/// The non-empty string at `field`, or `MissingField`.
pub open spec fn required_str_spec(p: Json, field: Seq<char>) -> Result<Seq<char>, RealtimeErrorView> {
    required_str_of(json_get(p, field), field)
}

/// A non-empty string value, or `MissingField`.
pub open spec fn required_str_of(v: Option<Json>, field: Seq<char>) -> Result<Seq<char>, RealtimeErrorView> {
    match v {
        Some(Json::Str(s)) => if s@.len() > 0 {
            Ok(s@)
        } else {
            Err(RealtimeErrorView::MissingField(field))
        },
        _ => Err(RealtimeErrorView::MissingField(field)),
    }
}

/// A decimal read from text, or `InvalidDecimal`.
pub open spec fn parse_decimal_spec(v: Seq<char>, field: Seq<char>) -> Result<(int, int), RealtimeErrorView> {
    match parsed_decimal(v) {
        Some(d) => Ok(d),
        None => Err(RealtimeErrorView::InvalidDecimal(field, v)),
    }
}

/// An optional decimal at `field`: a non-empty string or a number is parsed,
/// `null` or absence gives nothing, anything else is `InvalidDecimal`.
pub open spec fn optional_decimal_spec(p: Json, field: Seq<char>) -> Result<Option<(int, int)>, RealtimeErrorView> {
    optional_decimal_of(json_get(p, field), field)
}

/// An optional decimal value, read as [`optional_decimal_spec`] reads a field.
pub open spec fn optional_decimal_of(v: Option<Json>, field: Seq<char>) -> Result<Option<(int, int)>, RealtimeErrorView> {
    match v {
        Some(Json::Str(s)) => if s@.len() > 0 {
            match parse_decimal_spec(s@, field) {
                Ok(d) => Ok(Some(d)),
                Err(e) => Err(e),
            }
        } else {
            Err(RealtimeErrorView::InvalidDecimal(field, json_text(Json::Str(s))))
        },
        Some(Json::Number(n)) => match parse_decimal_spec(n.text@, field) {
            Ok(d) => Ok(Some(d)),
            Err(e) => Err(e),
        },
        Some(Json::Null) => Ok(None),
        None => Ok(None),
        Some(other) => Err(RealtimeErrorView::InvalidDecimal(field, json_text(other))),
    }
}

/// An optional integer at `field`: an `i64` number or a non-empty integer
/// string, `null` or absence gives nothing, anything else is `InvalidInteger`.
pub open spec fn optional_i64_spec(p: Json, field: Seq<char>) -> Result<Option<i64>, RealtimeErrorView> {
    optional_i64_of(json_get(p, field), field)
}

/// An optional integer value, read as [`optional_i64_spec`] reads a field.
pub open spec fn optional_i64_of(v: Option<Json>, field: Seq<char>) -> Result<Option<i64>, RealtimeErrorView> {
    match v {
        Some(Json::Number(n)) => match n.as_i64 {
            Some(v) => Ok(Some(v)),
            None => Err(RealtimeErrorView::InvalidInteger(field, n.text@)),
        },
        Some(Json::Str(s)) => if s@.len() > 0 {
            match parse_i64(s@) {
                Some(v) => Ok(Some(v)),
                None => Err(RealtimeErrorView::InvalidInteger(field, s@)),
            }
        } else {
            Err(RealtimeErrorView::InvalidInteger(field, json_text(Json::Str(s))))
        },
        Some(Json::Null) => Ok(None),
        None => Ok(None),
        Some(other) => Err(RealtimeErrorView::InvalidInteger(field, json_text(other))),
    }
}

/// The market of a Coinbase product, or `UnsupportedProduct`.
pub open spec fn product_market(product: Seq<char>) -> Result<MarketKey, RealtimeErrorView> {
    if product == "BTC-USD"@ {
        Ok(MarketKey::Btc5m)
    } else if product == "ETH-USD"@ {
        Ok(MarketKey::Eth15m)
    } else {
        Err(RealtimeErrorView::UnsupportedProduct(product))
    }
}

/// What normalizing a Coinbase ticker payload gives.
pub open spec fn ticker_outcome(p: Json, received_at: int) -> Result<MarketTickView, RealtimeErrorView> {
    ticker_outcome_of(
        json_get(p, "product_id"@),
        json_get(p, "time"@),
        json_get(p, "price"@),
        json_get(p, "last_size"@),
        json_get(p, "sequence"@),
        received_at,
    )
}

/// What normalizing gives for the values of the ticker fields.
pub open spec fn ticker_outcome_of(
    product_v: Option<Json>,
    time_v: Option<Json>,
    price_v: Option<Json>,
    size_v: Option<Json>,
    sequence_v: Option<Json>,
    received_at: int,
) -> Result<MarketTickView, RealtimeErrorView> {
    match required_str_of(product_v, "product_id"@) {
        Err(e) => Err(e),
        Ok(product) => match product_market(product) {
            Err(e) => Err(e),
            Ok(market_key) => match required_str_of(time_v, "time"@) {
                Err(e) => Err(e),
                Ok(time_text) => match rfc3339_instant(time_text) {
                    None => Err(RealtimeErrorView::InvalidTimestamp("time"@, time_text)),
                    Some(source_ts) => match required_str_of(price_v, "price"@) {
                        Err(e) => Err(e),
                        Ok(price_text) => match parse_decimal_spec(price_text, "price"@) {
                            Err(e) => Err(e),
                            Ok(price) => match optional_decimal_of(size_v, "last_size"@) {
                                Err(e) => Err(e),
                                Ok(size) => match optional_i64_of(sequence_v, "sequence"@) {
                                    Err(e) => Err(e),
                                    Ok(sequence) => Ok(
                                        MarketTickView {
                                            market_key,
                                            symbol: product,
                                            source: "coinbase"@,
                                            source_ts,
                                            received_at,
                                            price,
                                            size,
                                            sequence,
                                        },
                                    ),
                                },
                            },
                        },
                    },
                },
            },
        },
    }
}

/// The spread of two prices: the larger minus the smaller (used when the
/// payload gives no readable spread of its own).
pub open spec fn spread_of(up: (int, int), down: (int, int)) -> (int, int) {
    if parts_le(down, up) {
        decimal_difference(up.0, up.1, down.0, down.1)
    } else {
        decimal_difference(down.0, down.1, up.0, up.1)
    }
}

/// Without a readable spread of its own, a snapshot that has both prices gets
/// their distance as spread: at the finer of the two scales, the magnitude of
/// up minus down; so it is never negative and does not change when the two
/// prices are swapped.
pub proof fn spread_law(payload: Json)
    requires
        snapshot_outcome(payload) is Ok,
        snapshot_outcome(payload)->Ok_0.up_price is Some,
        snapshot_outcome(payload)->Ok_0.down_price is Some,
        !(optional_decimal_spec(payload, "spread"@) matches Ok(Some(_))),
    ensures
        ({
            let v = snapshot_outcome(payload)->Ok_0;
            let up = v.up_price.unwrap();
            let down = v.down_price.unwrap();
            let t = top(up.1, down.1);
            v.spread == Some((magnitude(at(up.0, up.1, t) - at(down.0, down.1, t)), t))
        }),
{
    let v = snapshot_outcome(payload)->Ok_0;
    let up = v.up_price.unwrap();
    let down = v.down_price.unwrap();
    assert(top(down.1, up.1) == top(up.1, down.1));
}

/// A Polymarket snapshot's view: slug, prices, spread and liquidity.
pub struct SnapshotView {
    pub event_slug: Seq<char>,
    pub up_price: Option<(int, int)>,
    pub down_price: Option<(int, int)>,
    pub spread: Option<(int, int)>,
    pub liquidity: Option<(int, int)>,
}

/// What normalizing a Polymarket snapshot payload gives.
pub open spec fn snapshot_outcome(p: Json) -> Result<SnapshotView, RealtimeErrorView> {
    match required_str_spec(p, "event_slug"@) {
        Err(e) => Err(e),
        Ok(slug) => match optional_decimal_spec(p, "up_price"@) {
            Err(e) => Err(e),
            Ok(up) => match optional_decimal_spec(p, "down_price"@) {
                Err(e) => Err(e),
                Ok(down) => {
                    let spread: Result<Option<(int, int)>, RealtimeErrorView> = match optional_decimal_spec(
                        p,
                        "spread"@,
                    ) {
                        Ok(Some(explicit)) => Ok(Some(explicit)),
                        other => if up.is_some() && down.is_some() {
                            Ok(Some(spread_of(up.unwrap(), down.unwrap())))
                        } else {
                            other
                        },
                    };
                    match spread {
                        Err(e) => Err(e),
                        Ok(spread) => match optional_decimal_spec(p, "liquidity"@) {
                            Err(e) => Err(e),
                            Ok(liquidity) => Ok(
                                SnapshotView {
                                    event_slug: slug,
                                    up_price: up,
                                    down_price: down,
                                    spread,
                                    liquidity,
                                },
                            ),
                        },
                    }
                },
            },
        },
    }
}

/// The non-empty string at `field`, or `MissingField`.
pub fn required_str<'a>(payload: &'a Json, field: &'static str) -> (r: Result<&'a String, RealtimeError>)
    ensures
        match required_str_spec(*payload, field@) {
            Ok(s) => r is Ok && r->Ok_0@ == s,
            Err(e) => r is Err && r->Err_0@ == e,
        },
{
    required_str_value(payload.get(field), field)
}

/// A non-empty string value, or `MissingField`.
pub fn required_str_value<'a>(v: Option<&'a Json>, field: &'static str) -> (r: Result<&'a String, RealtimeError>)
    ensures
        match required_str_of(opt_json(v), field@) {
            Ok(s) => r is Ok && r->Ok_0@ == s,
            Err(e) => r is Err && r->Err_0@ == e,
        },
{
    match v {
        Some(Json::Str(s)) => {
            if s.as_str().unicode_len() > 0 {
                Ok(s)
            } else {
                Err(RealtimeError::MissingField(field))
            }
        },
        _ => Err(RealtimeError::MissingField(field)),
    }
}

/// Parses a decimal text, or `InvalidDecimal`.
pub fn parse_decimal(value: &str, field: &'static str) -> (r: Result<Decimal, RealtimeError>)
    ensures
        match parse_decimal_spec(value@, field@) {
            Ok(d) => r is Ok && r->Ok_0.parts() == d,
            Err(e) => r is Err && r->Err_0@ == e,
        },
{
    match Decimal::parse(value) {
        Some(d) => Ok(d),
        None => Err(RealtimeError::InvalidDecimal { field, value: string_of(value) }),
    }
}

/// An optional decimal field.
pub fn optional_decimal(payload: &Json, field: &'static str) -> (r: Result<Option<Decimal>, RealtimeError>)
    ensures
        match optional_decimal_spec(*payload, field@) {
            Ok(d) => r is Ok && opt_parts(r->Ok_0) == d,
            Err(e) => r is Err && r->Err_0@ == e,
        },
{
    optional_decimal_value(payload.get(field), field)
}

/// An optional decimal value.
pub fn optional_decimal_value(v: Option<&Json>, field: &'static str) -> (r: Result<Option<Decimal>, RealtimeError>)
    ensures
        match optional_decimal_of(opt_json(v), field@) {
            Ok(d) => r is Ok && opt_parts(r->Ok_0) == d,
            Err(e) => r is Err && r->Err_0@ == e,
        },
{
    match v {
        Some(v) => match v {
            Json::Str(s) => {
                if s.as_str().unicode_len() > 0 {
                    match parse_decimal(s.as_str(), field) {
                        Ok(d) => Ok(Some(d)),
                        Err(e) => Err(e),
                    }
                } else {
                    Err(RealtimeError::InvalidDecimal { field, value: v.to_text() })
                }
            },
            Json::Number(n) => match parse_decimal(n.text.as_str(), field) {
                Ok(d) => Ok(Some(d)),
                Err(e) => Err(e),
            },
            Json::Null => Ok(None),
            _ => Err(RealtimeError::InvalidDecimal { field, value: v.to_text() }),
        },
        None => Ok(None),
    }
}

/// An optional integer field.
pub fn optional_i64(payload: &Json, field: &'static str) -> (r: Result<Option<i64>, RealtimeError>)
    ensures
        match optional_i64_spec(*payload, field@) {
            Ok(v) => r == Ok::<Option<i64>, RealtimeError>(v),
            Err(e) => r is Err && r->Err_0@ == e,
        },
{
    optional_i64_value(payload.get(field), field)
}

/// An optional integer value.
pub fn optional_i64_value(value: Option<&Json>, field: &'static str) -> (r: Result<Option<i64>, RealtimeError>)
    ensures
        match optional_i64_of(opt_json(value), field@) {
            Ok(v) => r == Ok::<Option<i64>, RealtimeError>(v),
            Err(e) => r is Err && r->Err_0@ == e,
        },
{
    match value {
        Some(v) => match v {
            Json::Number(n) => match n.as_i64 {
                Some(x) => Ok(Some(x)),
                None => Err(RealtimeError::InvalidInteger { field, value: n.text.clone() }),
            },
            Json::Str(s) => {
                if s.as_str().unicode_len() > 0 {
                    match parse_i64_str(s.as_str()) {
                        Some(x) => Ok(Some(x)),
                        None => Err(RealtimeError::InvalidInteger { field, value: s.clone() }),
                    }
                } else {
                    Err(RealtimeError::InvalidInteger { field, value: v.to_text() })
                }
            },
            Json::Null => Ok(None),
            _ => Err(RealtimeError::InvalidInteger { field, value: v.to_text() }),
        },
        None => Ok(None),
    }
}

/// The value behind an optional reference.
pub open spec fn opt_json(v: Option<&Json>) -> Option<Json> {
    match v {
        Some(j) => Some(*j),
        None => None,
    }
}

/// Normalizes a Coinbase ticker payload received at `received_at`.
pub fn normalize_coinbase_ticker(payload: &Json, received_at: i128) -> (r: Result<MarketTick, RealtimeError>)
    ensures
        match ticker_outcome(*payload, received_at as int) {
            Ok(t) => r is Ok && r->Ok_0@ == t,
            Err(e) => r is Err && r->Err_0@ == e,
        },
{
    normalize_ticker_fields(
        payload.get("product_id"),
        payload.get("time"),
        payload.get("price"),
        payload.get("last_size"),
        payload.get("sequence"),
        received_at,
    )
}

/// Normalizes a ticker from the values of its fields.
pub fn normalize_ticker_fields(
    product_v: Option<&Json>,
    time_v: Option<&Json>,
    price_v: Option<&Json>,
    size_v: Option<&Json>,
    sequence_v: Option<&Json>,
    received_at: i128,
) -> (r: Result<MarketTick, RealtimeError>)
    ensures
        match ticker_outcome_of(
            opt_json(product_v),
            opt_json(time_v),
            opt_json(price_v),
            opt_json(size_v),
            opt_json(sequence_v),
            received_at as int,
        ) {
            Ok(t) => r is Ok && r->Ok_0@ == t,
            Err(e) => r is Err && r->Err_0@ == e,
        },
{
    proof {
        reveal_strlit("BTC-USD");
        reveal_strlit("ETH-USD");
        assert("BTC-USD"@[0] != "ETH-USD"@[0]);
    }
    let product_id = match required_str_value(product_v, "product_id") {
        Ok(s) => s,
        Err(e) => return Err(e),
    };
    let market_key = match MarketKey::from_coinbase_product(product_id.as_str()) {
        Ok(k) => k,
        Err(e) => return Err(e),
    };
    let time_text = match required_str_value(time_v, "time") {
        Ok(s) => s,
        Err(e) => return Err(e),
    };
    let source_ts = match parse_rfc3339(time_text.as_str()) {
        Some(t) => t,
        None => {
            return Err(RealtimeError::InvalidTimestamp { field: "time", value: time_text.clone() });
        },
    };
    let price_text = match required_str_value(price_v, "price") {
        Ok(s) => s,
        Err(e) => return Err(e),
    };
    let price = match parse_decimal(price_text.as_str(), "price") {
        Ok(p) => p,
        Err(e) => return Err(e),
    };
    let size = match optional_decimal_value(size_v, "last_size") {
        Ok(s) => s,
        Err(e) => return Err(e),
    };
    let sequence = match optional_i64_value(sequence_v, "sequence") {
        Ok(s) => s,
        Err(e) => return Err(e),
    };
    let tick = MarketTick {
        market_key,
        symbol: product_id.clone(),
        source: string_of("coinbase"),
        source_ts,
        received_at,
        price,
        size,
        sequence,
    };
    assert(tick@ =~= ticker_outcome_of(
        opt_json(product_v),
        opt_json(time_v),
        opt_json(price_v),
        opt_json(size_v),
        opt_json(sequence_v),
        received_at as int,
    )->Ok_0);
    Ok(tick)
}

/// Normalizes a Polymarket snapshot payload for `market_key` captured at
/// `captured_at`; the payload is kept in the snapshot.
pub fn normalize_polymarket_snapshot(market_key: MarketKey, payload: Json, captured_at: i128) -> (r: Result<PolymarketSnapshot, RealtimeError>)
    ensures
        match snapshot_outcome(payload) {
            Ok(v) => r is Ok && r->Ok_0.market_key == market_key && r->Ok_0.captured_at
                == captured_at && r->Ok_0.event_slug@ == v.event_slug && opt_parts(
                r->Ok_0.up_price,
            ) == v.up_price && opt_parts(r->Ok_0.down_price) == v.down_price && opt_parts(
                r->Ok_0.spread,
            ) == v.spread && opt_parts(r->Ok_0.liquidity) == v.liquidity && r->Ok_0.payload
                == payload,
            Err(e) => r is Err && r->Err_0@ == e,
        },
{
    let event_slug = match required_str(&payload, "event_slug") {
        Ok(s) => s.clone(),
        Err(e) => return Err(e),
    };
    let up_price = match optional_decimal(&payload, "up_price") {
        Ok(d) => d,
        Err(e) => return Err(e),
    };
    let down_price = match optional_decimal(&payload, "down_price") {
        Ok(d) => d,
        Err(e) => return Err(e),
    };
    let spread = match optional_decimal(&payload, "spread") {
        Ok(Some(s)) => Some(s),
        other => match (&up_price, &down_price) {
            (Some(up), Some(down)) => {
                if down.less_or_equal(up) {
                    Some(up.sub(down))
                } else {
                    Some(down.sub(up))
                }
            },
            _ => match other {
                Ok(d) => d,
                Err(e) => return Err(e),
            },
        },
    };
    let liquidity = match optional_decimal(&payload, "liquidity") {
        Ok(d) => d,
        Err(e) => return Err(e),
    };
    Ok(
        PolymarketSnapshot {
            market_key,
            event_slug,
            captured_at,
            up_price,
            down_price,
            spread,
            liquidity,
            payload,
        },
    )
}

} // verus!
