use std::sync::{Arc, Mutex};

use polymarket_backend::json::{Json, JsonNumber};
use polymarket_backend::realtime::collector::{
    build_coinbase_subscribe_message, build_polymarket_prices_request, extract_polymarket_market,
    handle_coinbase_ws_message, merge_polymarket_snapshot_payload, CoinbaseCollectorConfig,
    CollectorEvent, CollectorEventSink, CollectorIngress, PolymarketSnapshotRefresherConfig,
    normalize_event, COINBASE_WS_ENDPOINT,
};
use polymarket_backend::realtime::types::{MarketKey, RealtimeError, RealtimeEvent};
use polymarket_backend::realtime::window::polymarket_event_slug_at;

const NANOS: i128 = 1_000_000_000;

fn text(value: &str) -> Json {
    Json::Str(value.to_string())
}

fn integer(value: i64) -> Json {
    Json::Number(JsonNumber { text: value.to_string(), as_i64: Some(value) })
}

fn number(value: &str) -> Json {
    Json::Number(JsonNumber { text: value.to_string(), as_i64: None })
}

fn object(fields: Vec<(&str, Json)>) -> Json {
    let mut fields: Vec<(String, Json)> = fields.into_iter().map(|(k, v)| (k.to_string(), v)).collect();
    fields.sort_by(|a, b| a.0.cmp(&b.0));
    Json::Object(fields)
}

fn str_field<'a>(value: &'a Json, key: &str) -> Option<&'a str> {
    value.get(key).and_then(|v| v.as_str()).map(|s| s.as_str())
}

#[derive(Clone, Default)]
struct RecordingSink {
    events: Arc<Mutex<Vec<RealtimeEvent>>>,
}

impl RecordingSink {
    fn take(&self) -> Vec<RealtimeEvent> {
        std::mem::take(&mut *self.events.lock().expect("events lock poisoned"))
    }
}

impl CollectorEventSink for RecordingSink {
    fn try_publish(&self, event: RealtimeEvent) -> Result<(), RealtimeError> {
        self.events.lock().expect("events lock poisoned").push(event);
        Ok(())
    }
}

#[test]
fn collector_config_defaults_to_supported_symbols_and_markets() {
    let coinbase = CoinbaseCollectorConfig::default();
    let polymarket = PolymarketSnapshotRefresherConfig::default();

    assert_eq!(coinbase.symbols, vec!["BTC-USD", "ETH-USD"]);
    assert_eq!(coinbase.connect_timeout, std::time::Duration::from_secs(10));
    assert_eq!(polymarket.markets, vec![MarketKey::Btc5m, MarketKey::Eth15m]);
    assert_eq!(polymarket.interval, time::Duration::seconds(15));
}

#[test]
fn collector_ingress_normalizes_coinbase_ticker_and_publishes_tick() {
    let sink = RecordingSink::default();
    let ingress = CollectorIngress::new(sink.clone());
    let received_at = 10 * NANOS;

    ingress
        .handle(CollectorEvent::CoinbaseTicker {
            payload: object(vec![
                ("type", text("ticker")),
                ("product_id", text("BTC-USD")),
                ("time", text("2026-05-21T12:00:01Z")),
                ("price", text("68000.25")),
                ("last_size", text("0.005")),
                ("sequence", integer(42)),
            ]),
            received_at,
        })
        .expect("ticker should be published");

    let events = sink.take();
    assert_eq!(events.len(), 1);
    let RealtimeEvent::Tick(tick) = &events[0] else {
        panic!("expected tick event");
    };
    assert_eq!(tick.market_key, MarketKey::Btc5m);
    assert_eq!(tick.source, "coinbase");
    assert_eq!(tick.received_at, received_at);
}

#[test]
fn collector_ingress_normalizes_polymarket_snapshot_and_heartbeat() {
    let sink = RecordingSink::default();
    let ingress = CollectorIngress::new(sink.clone());
    let captured_at = 20 * NANOS;

    ingress
        .handle(CollectorEvent::PolymarketSnapshot {
            market_key: MarketKey::Eth15m,
            payload: object(vec![
                ("event_slug", text("eth-updown-15m-1779324300")),
                ("up_price", text("0.54")),
                ("down_price", text("0.47")),
                ("liquidity", text("1000.0")),
            ]),
            captured_at,
        })
        .expect("snapshot should be published");
    ingress
        .handle(CollectorEvent::Heartbeat { source: "coinbase".to_string(), received_at: captured_at })
        .expect("heartbeat should be published");

    let events = sink.take();
    assert_eq!(events.len(), 2);
    assert!(matches!(
        &events[0],
        RealtimeEvent::PolymarketSnapshot(snapshot)
            if snapshot.market_key == MarketKey::Eth15m
                && snapshot.event_slug == "eth-updown-15m-1779324300"
    ));
    assert!(matches!(
        &events[1],
        RealtimeEvent::SourceHeartbeat { source, received_at }
            if source == "coinbase" && *received_at == captured_at
    ));
}

#[test]
fn coinbase_subscribe_message_uses_public_ticker_and_heartbeat_channels() {
    let config = CoinbaseCollectorConfig::default();
    let message = build_coinbase_subscribe_message(&config);

    assert_eq!(config.endpoint, COINBASE_WS_ENDPOINT);
    assert_eq!(str_field(&message, "type"), Some("subscribe"));
    let ids: Vec<&str> = message
        .get("product_ids")
        .and_then(|v| v.as_array())
        .expect("product ids")
        .iter()
        .map(|v| v.as_str().expect("string id").as_str())
        .collect();
    assert_eq!(ids, vec!["BTC-USD", "ETH-USD"]);
    assert_eq!(str_field(&message, "channel"), Some("ticker"));
}

#[test]
fn coinbase_ws_handler_publishes_ticker_and_heartbeat_messages() {
    let sink = RecordingSink::default();
    let ingress = CollectorIngress::new(sink.clone());
    let received_at = 30 * NANOS;
    let now_text = text("1970-01-01T00:00:30Z");

    let ticker_message = object(vec![
        ("channel", text("ticker")),
        ("timestamp", text("2026-05-21T12:00:02Z")),
        ("sequence_num", integer(43)),
        (
            "events",
            Json::Array(vec![object(vec![
                ("type", text("snapshot")),
                (
                    "tickers",
                    Json::Array(vec![object(vec![
                        ("type", text("ticker")),
                        ("product_id", text("ETH-USD")),
                        ("price", text("3600.25")),
                    ])]),
                ),
            ])]),
        ),
    ]);
    handle_coinbase_ws_message(&ingress, &ticker_message, received_at, &now_text)
        .expect("ticker should publish");
    let heartbeat_message = object(vec![
        ("channel", text("heartbeats")),
        ("timestamp", text("2026-05-21T12:00:03Z")),
        ("events", Json::Array(vec![object(vec![("current_time", text("2026-05-21T12:00:03Z"))])])),
    ]);
    handle_coinbase_ws_message(&ingress, &heartbeat_message, received_at, &now_text)
        .expect("heartbeat should publish");

    let events = sink.take();
    assert_eq!(events.len(), 2);
    assert!(matches!(&events[0], RealtimeEvent::Tick(tick) if tick.market_key == MarketKey::Eth15m));
    assert!(matches!(
        &events[1],
        RealtimeEvent::SourceHeartbeat { source, received_at: ts }
            if source == "coinbase" && *ts == received_at
    ));
}

#[test]
fn polymarket_event_slug_uses_supported_window_boundaries() {
    let ts = 1_779_414_219 * NANOS;

    assert_eq!(polymarket_event_slug_at(MarketKey::Btc5m, ts), "btc-updown-5m-1779414000");
    assert_eq!(polymarket_event_slug_at(MarketKey::Eth15m, ts), "eth-updown-15m-1779413400");
}

fn gamma_event(market_slug: &str, up_token: &str, down_token: &str, flags: bool) -> Json {
    let mut fields = vec![
        ("slug", text(market_slug)),
        ("outcomes", text("[\"Up\", \"Down\"]")),
        ("outcomePrices", text("[\"0.505\", \"0.495\"]")),
        ("clobTokenIds", text(&format!("[\"{up_token}\", \"{down_token}\"]"))),
        ("liquidity", text("12272.3924")),
        ("spread", number("0.01")),
    ];
    if flags {
        fields.push(("acceptingOrders", Json::Bool(true)));
        fields.push(("closed", Json::Bool(false)));
    }
    object(vec![
        ("slug", text("btc-updown-5m-1779411300")),
        ("markets", Json::Array(vec![object(fields)])),
    ])
}

#[test]
fn polymarket_gamma_event_extracts_tokens_and_fallback_prices() {
    let event = gamma_event("btc-updown-5m-1779411300", "up-token", "down-token", true);

    let market = extract_polymarket_market(MarketKey::Btc5m, "btc-updown-5m-1779411300", &event)
        .expect("market metadata should parse");

    assert_eq!(market.event_slug, "btc-updown-5m-1779411300");
    assert_eq!(market.up_token_id, "up-token");
    assert_eq!(market.down_token_id, "down-token");
    assert_eq!(market.fallback_up_price.as_deref(), Some("0.505"));
    assert_eq!(market.fallback_down_price.as_deref(), Some("0.495"));
    assert_eq!(market.liquidity.as_deref(), Some("12272.3924"));
    assert_eq!(market.spread.as_deref(), Some("0.01"));
    assert_eq!(market.accepting_orders, Some(true));
    assert_eq!(market.closed, Some(false));
}

#[test]
fn polymarket_gamma_event_rejects_missing_requested_market_slug() {
    let event = gamma_event("btc-updown-5m-1779411000", "wrong-up-token", "wrong-down-token", false);

    let error = extract_polymarket_market(MarketKey::Btc5m, "btc-updown-5m-1779411300", &event)
        .expect_err("wrong market slug should not be used as fallback");

    assert!(error.message().contains("missing market slug btc-updown-5m-1779411300"));
}

#[test]
fn polymarket_snapshot_payload_prefers_clob_prices_over_gamma_prices() {
    let event = gamma_event("btc-updown-5m-1779411300", "up-token", "down-token", false);
    let market = extract_polymarket_market(MarketKey::Btc5m, "btc-updown-5m-1779411300", &event)
        .expect("market metadata should parse");
    let prices = object(vec![
        ("up-token", object(vec![("BUY", text("0.87"))])),
        ("down-token", object(vec![("BUY", text("0.12"))])),
    ]);

    let payload = merge_polymarket_snapshot_payload(&market, &prices).expect("snapshot payload should merge");

    assert_eq!(str_field(&payload, "event_slug"), Some("btc-updown-5m-1779411300"));
    assert_eq!(str_field(&payload, "up_price"), Some("0.87"));
    assert_eq!(str_field(&payload, "down_price"), Some("0.12"));
    assert_eq!(str_field(&payload, "liquidity"), Some("12272.3924"));
    assert_eq!(str_field(&payload, "up_token_id"), Some("up-token"));
    assert_eq!(str_field(&payload, "down_token_id"), Some("down-token"));
}

#[test]
fn polymarket_prices_request_uses_buy_side_for_up_and_down_tokens() {
    let request = build_polymarket_prices_request("up-token", "down-token");

    assert_eq!(
        request.to_text(),
        "[{\"side\":\"BUY\",\"token_id\":\"up-token\"},{\"side\":\"BUY\",\"token_id\":\"down-token\"}]"
    );
}

#[test]
fn gamma_event_without_down_outcome_is_rejected_with_its_message() {
    let event = object(vec![(
        "markets",
        Json::Array(vec![object(vec![
            ("slug", text("s")),
            ("outcomes", Json::Array(vec![text("UP"), text("Sideways")])),
            ("clobTokenIds", text("[\"a\", \"b\"]")),
        ])]),
    )]);
    let error = extract_polymarket_market(MarketKey::Btc5m, "s", &event).unwrap_err();
    assert_eq!(error.message(), "polymarket metadata error: missing down outcome");

    let event = object(vec![(
        "markets",
        Json::Array(vec![object(vec![("slug", text("s")), ("outcomes", text("not json"))])]),
    )]);
    let error = extract_polymarket_market(MarketKey::Btc5m, "s", &event).unwrap_err();
    assert!(error.message().starts_with("polymarket json field outcomes: "));
}

#[test]
fn collector_events_normalize_to_bus_events() {
    let ticker = object(vec![
        ("product_id", text("ETH-USD")),
        ("time", text("2024-01-01T00:00:00Z")),
        ("price", text("2500.5")),
        ("last_size", text("0.1")),
    ]);
    match normalize_event(CollectorEvent::CoinbaseTicker { payload: ticker, received_at: 7 }) {
        Ok(RealtimeEvent::Tick(tick)) => {
            assert_eq!(tick.market_key, MarketKey::Eth15m);
            assert_eq!(tick.price.to_text(), "2500.5");
            assert_eq!(tick.received_at, 7);
        }
        other => panic!("expected a tick, got {other:?}"),
    }
    let missing = object(vec![("product_id", text("ETH-USD"))]);
    assert!(normalize_event(CollectorEvent::CoinbaseTicker { payload: missing, received_at: 7 }).is_err());
    match normalize_event(CollectorEvent::Heartbeat { source: "coinbase".to_string(), received_at: 9 }) {
        Ok(RealtimeEvent::SourceHeartbeat { source, received_at }) => {
            assert_eq!(source, "coinbase");
            assert_eq!(received_at, 9);
        }
        other => panic!("expected a heartbeat, got {other:?}"),
    }
    let snapshot = object(vec![("event_slug", text("btc-updown-5m-1700000100")), ("up_price", text("0.55"))]);
    match normalize_event(CollectorEvent::PolymarketSnapshot { market_key: MarketKey::Btc5m, payload: snapshot, captured_at: 3 }) {
        Ok(RealtimeEvent::PolymarketSnapshot(s)) => {
            assert_eq!(s.event_slug, "btc-updown-5m-1700000100");
            assert_eq!(s.up_price.map(|d| d.to_text()), Some("0.55".to_string()));
            assert!(s.spread.is_none());
            assert_eq!(s.captured_at, 3);
        }
        other => panic!("expected a snapshot, got {other:?}"),
    }
}

#[derive(Clone)]
struct RefusingSink;

impl CollectorEventSink for RefusingSink {
    fn try_publish(&self, _event: RealtimeEvent) -> Result<(), RealtimeError> {
        Err(RealtimeError::QueueFull)
    }
}

#[test]
fn messages_without_events_are_answered_without_the_sink() {
    let ingress = CollectorIngress::new(RefusingSink);
    let fallback = text("2024-01-01T00:00:00Z");
    let ack = object(vec![("type", text("subscriptions"))]);
    assert_eq!(handle_coinbase_ws_message(&ingress, &ack, 1, &fallback), Ok(false));
    let empty = object(vec![("channel", text("ticker")), ("events", Json::Array(Vec::new()))]);
    assert_eq!(handle_coinbase_ws_message(&ingress, &empty, 1, &fallback), Ok(false));
    let heartbeat = object(vec![("type", text("heartbeat"))]);
    assert_eq!(handle_coinbase_ws_message(&ingress, &heartbeat, 1, &fallback), Err(RealtimeError::QueueFull));
}
