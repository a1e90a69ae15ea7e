use polymarket_backend::decimal::Decimal;
use polymarket_backend::model::runtime::{ModelRuntimeError, ModelRuntimeSnapshot};
use polymarket_backend::model::types::ModelDecision;
use polymarket_backend::queue::{send_counter, SendCounter, TrySendOutcome};
use polymarket_backend::realtime::bus::RealtimeBusMetrics;
use polymarket_backend::realtime::collector::{
    after_proxy_read, after_ws_message, gamma_event_url, proxy_address, proxy_connect_request, proxy_response_complete,
    proxy_response_ok, websocket_host_port, ProxyReadStep,
};
use polymarket_backend::realtime::storage_bridge::{bridge_event, BridgeAction, BridgeOutcome, RealtimeStorageBridgeSnapshot};
use polymarket_backend::realtime::types::{MarketKey, MarketTick, RealtimeError, RealtimeEvent};
use polymarket_backend::storage::writer::{after_write_attempt, StorageError, StorageWriterMetrics, WriteStep};

#[test]
fn realtime_bus_reports_queue_full_without_blocking() {
    let mut metrics = RealtimeBusMetrics::new();
    assert_eq!(metrics.record_publish(TrySendOutcome::Sent), Ok(()));
    assert_eq!(metrics.record_publish(TrySendOutcome::Full), Err(RealtimeError::QueueFull));
    assert_eq!(metrics.record_publish(TrySendOutcome::Closed), Err(RealtimeError::QueueClosed));
    let snapshot = metrics.snapshot(1, 0);
    assert_eq!(snapshot.accepted, 1);
    assert_eq!(snapshot.dropped, 1);
    assert_eq!(send_counter(TrySendOutcome::Full), SendCounter::Dropped);
}

#[test]
fn storage_writer_retries_transient_failures_before_counting_written() {
    let mut metrics = StorageWriterMetrics::new();
    let mut attempt = 1;
    let mut failures = 2;
    loop {
        let ok = failures == 0;
        let step = after_write_attempt(attempt, ok);
        metrics.record_step(step);
        match step {
            WriteStep::Retry { next_attempt, delay_ms } => {
                assert_eq!(delay_ms, 25 * next_attempt as u64);
                attempt = next_attempt;
                failures -= 1;
            },
            _ => break,
        }
    }
    assert_eq!(metrics.written, 1);
    assert_eq!(metrics.retried, 2);
    assert_eq!(metrics.failed, 0);
    assert_eq!(after_write_attempt(3, false), WriteStep::Failed);
    assert_eq!(metrics.record_enqueue(TrySendOutcome::Full), Err(StorageError::QueueFull));
    assert_eq!(metrics.record_enqueue(TrySendOutcome::Closed), Err(StorageError::WriterClosed));
    assert_eq!(StorageError::QueueFull.message(), "storage queue is full");
    assert_eq!(metrics.snapshot(4, 0, true).task_status, "stopped");
}

fn tick(market_key: MarketKey) -> MarketTick {
    MarketTick {
        market_key,
        symbol: "BTC-USD".to_string(),
        source: "coinbase".to_string(),
        source_ts: 5,
        received_at: 6,
        price: Decimal::parse("1").unwrap(),
        size: None,
        sequence: Some(3),
    }
}

#[test]
fn storage_bridge_reports_missing_market_without_panicking() {
    let ids = vec![(MarketKey::Btc5m, 77u128)];
    let mut counters = RealtimeStorageBridgeSnapshot::new();
    match bridge_event(&ids, RealtimeEvent::Tick(tick(MarketKey::Btc5m))) {
        BridgeAction::Write(w) => {
            assert_eq!(w.market_id, 77);
            assert_eq!(w.sequence, Some(3));
            counters.record(BridgeOutcome::Enqueued);
        },
        other => panic!("unexpected {other:?}"),
    }
    assert!(matches!(bridge_event(&ids, RealtimeEvent::Tick(tick(MarketKey::Eth15m))), BridgeAction::MissingMarket));
    counters.record(BridgeOutcome::MissingMarket);
    let heartbeat = RealtimeEvent::SourceHeartbeat { source: "x".to_string(), received_at: 0 };
    assert!(matches!(bridge_event(&ids, heartbeat), BridgeAction::Ignore));
    counters.record(BridgeOutcome::Ignored);
    assert_eq!(counters.processed, 3);
    assert_eq!(counters.missing_market, 1);
    assert_eq!(counters.enqueued, 1);
}

#[test]
fn model_runtime_reports_queue_full_without_blocking() {
    let mut snapshot = ModelRuntimeSnapshot::new();
    assert_eq!(snapshot.record_enqueue(TrySendOutcome::Sent), Ok(()));
    assert_eq!(snapshot.record_enqueue(TrySendOutcome::Full), Err(ModelRuntimeError::QueueFull));
    assert_eq!(ModelRuntimeError::QueueFull.message(), "model runtime queue is full");
    assert_eq!(snapshot.accepted, 1);
    assert_eq!(snapshot.dropped, 1);
}

#[test]
fn model_runtime_records_unknown_assignment_as_failed() {
    let mut snapshot = ModelRuntimeSnapshot::new();
    snapshot.record_decision(Some(ModelDecision::no_trade("move below threshold")));
    snapshot.record_decision(None);
    assert_eq!(snapshot.processed, 2);
    assert_eq!(snapshot.no_trades, 1);
    assert_eq!(snapshot.failed, 1);
    assert!(snapshot.last_action.is_none());
    assert!(snapshot.last_decision.is_none());
}

#[test]
fn websocket_endpoints_and_proxy_handshake() {
    assert_eq!(websocket_host_port("wss://advanced-trade-ws.coinbase.com"), Ok(("advanced-trade-ws.coinbase.com".to_string(), 443)));
    assert_eq!(websocket_host_port("wss://host:8443/path"), Ok(("host".to_string(), 8443)));
    assert_eq!(websocket_host_port("ws://host"), Err("only wss endpoints are supported"));
    assert_eq!(websocket_host_port("wss://host:http/x"), Err("invalid websocket port"));
    assert_eq!(proxy_address("http://127.0.0.1:7890"), "127.0.0.1:7890");
    assert_eq!(proxy_address("https://proxy:1"), "proxy:1");
    assert_eq!(proxy_address("proxy:1"), "proxy:1");
    assert_eq!(proxy_connect_request("h", 443), "CONNECT h:443 HTTP/1.1\r\nHost: h:443\r\n\r\n");
    assert!(proxy_response_complete(&b"HTTP/1.1 200 OK\r\n\r\n".to_vec()));
    assert!(!proxy_response_complete(&b"HTTP/1.1 200 OK\r\n".to_vec()));
    assert!(proxy_response_ok("HTTP/1.0 200 Connection established"));
    assert!(!proxy_response_ok("HTTP/1.1 407 Proxy Authentication Required"));
    assert_eq!(gamma_event_url("https://gamma-api.polymarket.com/events//", "s"), "https://gamma-api.polymarket.com/events/slug/s");
    assert_eq!(after_ws_message(0, 1, true), (1, true));
    assert_eq!(after_ws_message(3, 10, false), (3, false));
}

#[test]
fn proxy_reads_stop_at_a_blank_line_or_past_the_limit() {
    assert_eq!(after_proxy_read(&b"HTTP/1.1 200 OK\r\n\r\n".to_vec()), ProxyReadStep::Complete);
    assert_eq!(after_proxy_read(&b"HTTP/1.1 200 OK\r\n".to_vec()), ProxyReadStep::More);
    assert_eq!(after_proxy_read(&vec![b'a'; 8192]), ProxyReadStep::More);
    assert_eq!(after_proxy_read(&vec![b'a'; 8193]), ProxyReadStep::TooLarge);
}
