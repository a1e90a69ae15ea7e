use polymarket_backend::decimal::Decimal;
use polymarket_backend::json::Json;
use polymarket_backend::realtime::runtime::state_health;
use polymarket_backend::realtime::state::{apply_event, RealtimeStateSnapshot, StateOwnerConfig};
use polymarket_backend::realtime::types::{MarketKey, MarketTick, PolymarketSnapshot, RealtimeEvent};

const NANOS: i128 = 1_000_000_000;

fn tick_at(seconds: i128, price: &str) -> MarketTick {
    MarketTick {
        market_key: MarketKey::Btc5m,
        symbol: "BTC-USD".to_string(),
        source: "coinbase".to_string(),
        source_ts: seconds * NANOS,
        received_at: seconds * NANOS,
        price: Decimal::parse(price).unwrap(),
        size: None,
        sequence: None,
    }
}

#[test]
fn state_owner_updates_live_state_from_tick_events() {
    let mut state = RealtimeStateSnapshot::new();
    apply_event(&mut state, RealtimeEvent::Tick(tick_at(65, "101.5")));
    state.record_processed();

    let market = state.market(MarketKey::Btc5m).expect("btc state should exist");
    assert_eq!(market.latest_tick.as_ref().unwrap().price, Decimal::parse("101.5").unwrap());
    assert_eq!(market.current_window.as_ref().unwrap().event_slug, "btc-updown-5m-0");
    assert_eq!(market.candles.len(), 1);
    assert_eq!(state.metrics.processed, 1);
    assert!(state.market(MarketKey::Eth15m).is_none());
}

#[test]
fn state_owner_reports_stale_sources() {
    let mut state = RealtimeStateSnapshot::new();
    let heartbeat_at = 100 * NANOS;
    apply_event(&mut state, RealtimeEvent::SourceHeartbeat { source: "coinbase".to_string(), received_at: heartbeat_at });
    let stale_after = StateOwnerConfig::default().stale_after;

    let fresh = state.source_status_at(heartbeat_at + 10 * NANOS, stale_after);
    let stale = state.source_status_at(heartbeat_at + 31 * NANOS, stale_after);

    assert_eq!(fresh, vec![("coinbase".to_string(), "fresh".to_string())]);
    assert_eq!(stale, vec![("coinbase".to_string(), "stale".to_string())]);
}

#[test]
fn sources_stay_in_name_order_and_keep_the_latest_time() {
    let mut state = RealtimeStateSnapshot::new();
    for (source, at) in [("polymarket", 5), ("coinbase", 7), ("binance", 1), ("coinbase", 9)] {
        apply_event(&mut state, RealtimeEvent::SourceHeartbeat { source: source.to_string(), received_at: at * NANOS });
    }
    let names: Vec<&str> = state.sources.iter().map(|(n, _)| n.as_str()).collect();
    assert_eq!(names, vec!["binance", "coinbase", "polymarket"]);
    assert_eq!(state.sources[1].1.last_seen_at, 9 * NANOS);
    let health = state_health(&state, 35 * NANOS, 30 * NANOS);
    assert_eq!(health.markets_tracked, 0);
    assert_eq!(health.sources[0].1, "stale");
    assert_eq!(health.sources[1].1, "fresh");
}

#[test]
fn snapshots_keep_ticks_and_mark_polymarket_seen() {
    let mut state = RealtimeStateSnapshot::new();
    apply_event(&mut state, RealtimeEvent::Tick(tick_at(10, "100")));
    let snapshot = PolymarketSnapshot {
        market_key: MarketKey::Btc5m,
        event_slug: "btc-updown-5m-0".to_string(),
        captured_at: 12 * NANOS,
        up_price: None,
        down_price: None,
        spread: None,
        liquidity: None,
        payload: Json::Null,
    };
    apply_event(&mut state, RealtimeEvent::PolymarketSnapshot(snapshot));
    apply_event(&mut state, RealtimeEvent::Tick(tick_at(70, "90")));
    let mut eth = tick_at(20, "3000");
    eth.market_key = MarketKey::Eth15m;
    apply_event(&mut state, RealtimeEvent::Tick(eth));

    assert_eq!(state.markets_tracked(), 2);
    assert_eq!(state.markets[0].market_key, MarketKey::Btc5m);
    assert_eq!(state.markets[1].market_key, MarketKey::Eth15m);
    let btc = state.market(MarketKey::Btc5m).unwrap();
    assert_eq!(btc.latest_snapshot.as_ref().unwrap().event_slug, "btc-updown-5m-0");
    assert_eq!(btc.candles.len(), 2);
    assert_eq!(btc.latest_tick.as_ref().unwrap().price, Decimal::parse("90").unwrap());
    let names: Vec<&str> = state.sources.iter().map(|(n, _)| n.as_str()).collect();
    assert_eq!(names, vec!["coinbase", "polymarket"]);
    state.record_fanout_dropped(3);
    assert_eq!(state.metrics.fanout_dropped, 3);
}
