use polymarket_backend::decimal::Decimal;
use polymarket_backend::json::{Json, JsonNumber};
use polymarket_backend::realtime::normalize::{normalize_coinbase_ticker, normalize_polymarket_snapshot};
use polymarket_backend::realtime::types::{MarketKey, RealtimeError};

const NANOS: i128 = 1_000_000_000;

fn decimal(text: &str) -> Decimal {
    Decimal::parse(text).expect("decimal literal")
}

fn text(value: &str) -> Json {
    Json::Str(value.to_string())
}

fn integer(value: i64) -> Json {
    Json::Number(JsonNumber { text: value.to_string(), as_i64: Some(value) })
}

fn object(fields: Vec<(&str, Json)>) -> Json {
    let mut fields: Vec<(String, Json)> = fields.into_iter().map(|(k, v)| (k.to_string(), v)).collect();
    fields.sort_by(|a, b| a.0.cmp(&b.0));
    Json::Object(fields)
}

#[test]
fn coinbase_ticker_json_becomes_market_tick() {
    let received_at = 1_779_330_123 * NANOS;
    let payload = object(vec![
        ("type", text("ticker")),
        ("product_id", text("BTC-USD")),
        ("time", text("2026-05-21T10:15:23.456Z")),
        ("price", text("104250.12")),
        ("last_size", text("0.031")),
        ("sequence", integer(998877)),
    ]);

    let tick = normalize_coinbase_ticker(&payload, received_at).expect("ticker should normalize");

    assert_eq!(tick.market_key, MarketKey::Btc5m);
    assert_eq!(tick.symbol, "BTC-USD");
    assert_eq!(tick.source, "coinbase");
    assert_eq!(tick.received_at, received_at);
    assert_eq!(tick.source_ts, 1_779_358_523 * NANOS + 456_000_000);
    assert_eq!(tick.price, decimal("104250.12"));
    assert_eq!(tick.size, Some(decimal("0.031")));
    assert_eq!(tick.sequence, Some(998877));
}

#[test]
fn coinbase_ticker_rejects_unsupported_product() {
    let payload = object(vec![
        ("type", text("ticker")),
        ("product_id", text("SOL-USD")),
        ("time", text("2026-05-21T10:15:23.456Z")),
        ("price", text("180.12")),
    ]);

    let error = normalize_coinbase_ticker(&payload, 0).expect_err("unsupported product should be rejected");

    assert!(matches!(error, RealtimeError::UnsupportedProduct(product) if product == "SOL-USD"));
}

#[test]
fn polymarket_snapshot_json_becomes_typed_snapshot() {
    let captured_at = 1_779_330_300 * NANOS;
    let payload = object(vec![
        ("event_slug", text("btc-updown-5m-1779330300")),
        ("up_price", text("0.515")),
        ("down_price", text("0.485")),
        ("liquidity", text("12500.75")),
    ]);

    let snapshot = normalize_polymarket_snapshot(MarketKey::Btc5m, payload, captured_at)
        .expect("snapshot should normalize");

    assert_eq!(snapshot.market_key, MarketKey::Btc5m);
    assert_eq!(snapshot.event_slug, "btc-updown-5m-1779330300");
    assert_eq!(snapshot.captured_at, captured_at);
    assert_eq!(snapshot.up_price, Some(decimal("0.515")));
    assert_eq!(snapshot.down_price, Some(decimal("0.485")));
    assert_eq!(snapshot.spread, Some(decimal("0.030")));
    assert_eq!(snapshot.liquidity, Some(decimal("12500.75")));
}

#[test]
fn polymarket_snapshot_uses_explicit_spread_when_present() {
    let captured_at = 1_779_330_300 * NANOS;
    let payload = object(vec![
        ("event_slug", text("btc-updown-5m-1779330300")),
        ("up_price", text("0.87")),
        ("down_price", text("0.12")),
        ("spread", text("0.01")),
    ]);

    let snapshot = normalize_polymarket_snapshot(MarketKey::Btc5m, payload, captured_at)
        .expect("snapshot should normalize");

    assert_eq!(snapshot.spread, Some(decimal("0.01")));
}

#[test]
fn normalization_reports_missing_and_invalid_fields() {
    let payload = object(vec![("product_id", text("BTC-USD")), ("price", text("1"))]);
    let error = normalize_coinbase_ticker(&payload, 0).unwrap_err();
    assert!(matches!(error, RealtimeError::MissingField("time")));
    assert_eq!(error.message(), "missing field: time");

    let payload = object(vec![
        ("product_id", text("BTC-USD")),
        ("time", text("2026-05-21T10:15:23Z")),
        ("price", text("abc")),
    ]);
    let error = normalize_coinbase_ticker(&payload, 0).unwrap_err();
    assert!(matches!(error, RealtimeError::InvalidDecimal { field: "price", .. }));

    let payload = object(vec![
        ("product_id", text("BTC-USD")),
        ("time", text("yesterday")),
        ("price", text("1")),
    ]);
    let error = normalize_coinbase_ticker(&payload, 0).unwrap_err();
    assert!(matches!(error, RealtimeError::InvalidTimestamp { field: "time", .. }));
}

#[test]
fn an_unreadable_spread_falls_back_to_the_prices_when_both_are_given() {
    let payload = object(vec![
        ("event_slug", text("btc-updown-5m-1779330300")),
        ("up_price", text("0.87")),
        ("down_price", text("0.12")),
        ("spread", text("wide")),
    ]);
    let snapshot = normalize_polymarket_snapshot(MarketKey::Btc5m, payload, 0).expect("prices suffice");
    assert_eq!(snapshot.spread, Some(decimal("0.75")));

    let payload = object(vec![
        ("event_slug", text("btc-updown-5m-1779330300")),
        ("up_price", text("0.87")),
        ("spread", text("wide")),
    ]);
    assert!(normalize_polymarket_snapshot(MarketKey::Btc5m, payload, 0).is_err());
}
