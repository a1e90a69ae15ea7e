use polymarket_backend::api::views::{
    active_assignment, cockpit_market, first_actionable_alert, market_state_dto, market_summaries,
    market_summary, needs_unfiltered_backtests, CandleDto, MarketTickDto, NotificationChannelDto,
    NotificationDeliveryDto,
};
use polymarket_backend::api::guards::dry_run_event;
use polymarket_backend::decimal::Decimal;
use polymarket_backend::json::Json;
use polymarket_backend::realtime::collector::tickers_can_be_stamped;
use polymarket_backend::realtime::state::{apply_tick, event_fits, RealtimeStateSnapshot};
use polymarket_backend::realtime::types::{MarketKey, MarketTick, RealtimeEvent};
use polymarket_backend::realtime::window::window_fits;
use polymarket_backend::storage::pool::PgPoolOptionsConfig;
use polymarket_backend::storage::types::uuid_to_string;
use polymarket_backend::storage::types::{
    BacktestRunRecord, CandleRecord, ModelAssignmentRecord, NotificationChannelRecord,
    NotificationDeliveryRecord, SignalWithMarketRecord,
};

const SEC: i128 = 1_000_000_000;

fn dec(text: &str) -> Decimal {
    Decimal::parse(text).unwrap()
}

fn tick(price: &str, ts_seconds: i128) -> MarketTick {
    MarketTick {
        market_key: MarketKey::Btc5m,
        symbol: "BTC-USD".to_string(),
        source: "coinbase".to_string(),
        source_ts: ts_seconds * SEC,
        received_at: ts_seconds * SEC,
        price: dec(price),
        size: Some(dec("0.25")),
        sequence: Some(7),
    }
}

fn signal(id: u128, signal_type: &str) -> SignalWithMarketRecord {
    SignalWithMarketRecord {
        id,
        market_key: "btc5m".to_string(),
        market_window_id: 10,
        model_version_id: 20,
        signal_type: signal_type.to_string(),
        side: Some("UP".to_string()),
        confidence: Some(dec("0.61")),
        limit_price: None,
        suggested_size: None,
        ttl_ms: Some(5000),
        reason: "edge".to_string(),
        features: Json::Null,
        input_snapshot_hash: "h".to_string(),
        created_at: 5,
    }
}

fn assignment(market_key: &str, model_key: &str) -> ModelAssignmentRecord {
    ModelAssignmentRecord {
        market_key: market_key.to_string(),
        model_key: model_key.to_string(),
        display_name: model_key.to_string(),
        version: "v1".to_string(),
        parameters: Json::Null,
        status: "active".to_string(),
        created_at: 1,
    }
}

#[test]
fn pool_options_default_to_five_connections() {
    assert_eq!(PgPoolOptionsConfig::default().max_connections, 5);
}

#[test]
fn tick_report_writes_decimals_as_text() {
    let dto = MarketTickDto::from_tick(&tick("64000.50", 1_700_000_000));
    assert_eq!(dto.symbol, "BTC-USD");
    assert_eq!(dto.price, "64000.50");
    assert_eq!(dto.size, Some("0.25".to_string()));
    assert_eq!(dto.sequence, Some(7));
}

#[test]
fn market_summary_without_live_state_has_only_the_market() {
    let status = "fresh".to_string();
    let summary = market_summary(MarketKey::Eth15m, None, Some(&status));
    assert_eq!(summary.market_key, "eth15m");
    assert_eq!(summary.symbol, "ETH-USD");
    assert_eq!(summary.interval_seconds, 900);
    assert_eq!(summary.source_status, Some("fresh".to_string()));
    assert!(summary.current_window.is_none());
    assert!(summary.latest_tick.is_none());
}

#[test]
fn market_summaries_read_the_live_state_and_source_status() {
    let mut state = RealtimeStateSnapshot::new();
    apply_tick(&mut state, tick("100", 1_700_000_010));
    let statuses = vec![("coinbase".to_string(), "stale".to_string())];
    let summaries = market_summaries(&vec![MarketKey::Btc5m, MarketKey::Eth15m], Some(&state), &statuses);
    assert_eq!(summaries.len(), 2);
    assert_eq!(summaries[0].latest_tick.as_ref().unwrap().price, "100");
    assert!(summaries[0].current_window.is_some());
    assert_eq!(summaries[0].source_status, Some("stale".to_string()));
    assert!(summaries[1].latest_tick.is_none());
    let dto = market_state_dto(MarketKey::Btc5m, state.market(MarketKey::Btc5m));
    assert_eq!(dto.recent_candles.len(), 1);
    assert_eq!(dto.market_key, "btc5m");
}

#[test]
fn channel_report_masks_the_webhook() {
    let dto = NotificationChannelDto::from_record(NotificationChannelRecord {
        id: 3,
        market_key: "btc5m".to_string(),
        channel_type: "feishu".to_string(),
        name: "ops".to_string(),
        webhook_url: "https://open.feishu.cn/open-apis/bot/v2/hook/abcdefgh".to_string(),
        enabled: true,
        created_at: 0,
    });
    assert_eq!(dto.webhook_url, None);
    assert_eq!(dto.webhook_url_masked, "https://open.feishu.cn/.../efgh");
}

#[test]
fn candle_report_keeps_each_price_text() {
    let dto = CandleDto::from_record(CandleRecord {
        market_key: "btc5m".to_string(),
        start_ts: 60 * SEC,
        open: dec("1.0"),
        high: dec("2.50"),
        low: dec("0.5"),
        close: dec("2"),
        volume: dec("10"),
    });
    assert_eq!((dto.open.as_str(), dto.high.as_str(), dto.low.as_str()), ("1.0", "2.50", "0.5"));
    assert_eq!((dto.close.as_str(), dto.volume.as_str()), ("2", "10"));
}

#[test]
fn cockpit_picks_the_market_model_and_first_actionable_alert() {
    let assignments = vec![assignment("eth15m", "m-eth"), assignment("btc5m", "m-btc")];
    assert_eq!(active_assignment(&assignments, MarketKey::Btc5m), Some(1));
    assert_eq!(active_assignment(&vec![assignment("eth15m", "m-eth")], MarketKey::Btc5m), None);
    let signals = vec![signal(1, "no_trade"), signal(2, "actionable_alert"), signal(3, "actionable_alert")];
    assert_eq!(first_actionable_alert(&signals), Some(1));
    assert!(needs_unfiltered_backtests(0, Some("m-btc")));
    assert!(!needs_unfiltered_backtests(0, None));
    assert!(!needs_unfiltered_backtests(1, Some("m-btc")));

    let run = BacktestRunRecord {
        id: 9,
        market_key: "btc5m".to_string(),
        model_key: "m-btc".to_string(),
        display_name: "M".to_string(),
        model_version: "v1".to_string(),
        parameters: Json::Null,
        started_at: 1,
        finished_at: None,
        window_start: 0,
        window_end: 2,
        metrics: Json::Null,
        status: "completed".to_string(),
    };
    let summary = market_summary(MarketKey::Btc5m, None, None);
    let view = cockpit_market(summary, Vec::new(), Some(&assignments[1]), signals, vec![run], Vec::new(), Vec::new());
    assert_eq!(view.active_model.as_ref().unwrap().model_key, "m-btc");
    assert_eq!(view.latest_signal.as_ref().unwrap().id, 1);
    assert_eq!(view.latest_actionable_alert.as_ref().unwrap().id, 2);
    assert_eq!(view.latest_actionable_alert.as_ref().unwrap().confidence, Some("0.61".to_string()));
    assert_eq!(view.latest_backtest.as_ref().unwrap().id, 9);
    assert!(view.recent_candles.is_empty());

    let empty = cockpit_market(market_summary(MarketKey::Btc5m, None, None), Vec::new(), None, vec![signal(4, "no_trade")], Vec::new(), Vec::new(), Vec::new());
    assert!(empty.active_model.is_none());
    assert!(empty.latest_actionable_alert.is_none());
    assert!(empty.latest_backtest.is_none());
}

#[test]
fn dry_run_probe_is_recorded_as_a_runtime_event() {
    let channel = NotificationChannelRecord {
        id: 0x1234,
        market_key: "btc5m".to_string(),
        channel_type: "feishu".to_string(),
        name: "ops".to_string(),
        webhook_url: "https://open.feishu.cn/open-apis/bot/v2/hook/abcdefgh".to_string(),
        enabled: true,
        created_at: 0,
    };
    let sent = dry_run_event(MarketKey::Btc5m, &channel, "sent", Some("ok"));
    assert_eq!(sent.component, "notification");
    assert_eq!(sent.severity, "info");
    assert_eq!(sent.event_type, "feishu_dry_run");
    assert_eq!(sent.message, "Feishu dry-run sent for btc5m channel ops");
    assert_eq!(sent.details.get("channel_id").and_then(|v| v.as_str()).map(|s| s.as_str()), Some("00000000-0000-0000-0000-000000001234"));
    assert_eq!(sent.details.get("webhook_url_masked").and_then(|v| v.as_str()).map(|s| s.as_str()), Some("https://open.feishu.cn/.../efgh"));
    assert_eq!(sent.details.get("response_summary").and_then(|v| v.as_str()).map(|s| s.as_str()), Some("ok"));
    assert_eq!(sent.details.get("orders_created").and_then(|v| v.as_bool()), Some(false));
    let failed = dry_run_event(MarketKey::Btc5m, &channel, "failed", None);
    assert_eq!(failed.severity, "warn");
    assert_eq!(failed.details.get("response_summary"), Some(&Json::Null));
}

#[test]
fn events_outside_the_calendar_do_not_fit_the_state() {
    assert!(event_fits(&RealtimeEvent::Tick(tick("1", 1_700_000_000))));
    assert!(!event_fits(&RealtimeEvent::Tick(tick("1", 300_000_000_000))));
    assert!(window_fits(MarketKey::Eth15m, 0));
    assert!(!window_fits(MarketKey::Eth15m, 253_402_300_799 * SEC));
    let heartbeat = RealtimeEvent::SourceHeartbeat { source: "coinbase".to_string(), received_at: i128::MAX };
    assert!(event_fits(&heartbeat));
    match heartbeat.copy() {
        RealtimeEvent::SourceHeartbeat { source, received_at } => {
            assert_eq!(source, "coinbase");
            assert_eq!(received_at, i128::MAX);
        }
        _ => panic!("copy changed the event kind"),
    }
}

#[test]
fn ticker_messages_must_hold_objects() {
    let ticker = |tickers: Vec<Json>| {
        Json::Object(vec![
            ("channel".to_string(), Json::Str("ticker".to_string())),
            (
                "events".to_string(),
                Json::Array(vec![Json::Object(vec![("tickers".to_string(), Json::Array(tickers))])]),
            ),
        ])
    };
    assert!(tickers_can_be_stamped(&ticker(vec![Json::Object(Vec::new()), Json::Null])));
    assert!(!tickers_can_be_stamped(&ticker(vec![Json::Object(Vec::new()), Json::Bool(true)])));
    assert!(tickers_can_be_stamped(&Json::Object(vec![("channel".to_string(), Json::Str("heartbeats".to_string()))])));
}

#[test]
fn notification_deliveries_api_returns_masked_status_for_market() {
    let record = NotificationDeliveryRecord {
        id: 9,
        market_key: "btc5m".to_string(),
        signal_id: 3,
        channel_id: 4,
        channel_type: "feishu".to_string(),
        channel_name: "primary".to_string(),
        status: "failed".to_string(),
        attempt_count: 1,
        response_summary: Some(
            "failed calling https://open.feishu.cn/open-apis/bot/v2/hook/abcd".to_string(),
        ),
        created_at: 10,
        updated_at: 11,
    };
    let dto = NotificationDeliveryDto::from_record(record);
    assert_eq!(dto.channel_name, "primary");
    assert_eq!(dto.channel_type, "feishu");
    assert_eq!(dto.status, "failed");
    assert_eq!(dto.attempt_count, 1);
    assert_eq!(dto.market_key, "btc5m");
    assert_eq!(
        dto.response_summary.as_deref(),
        Some("failed calling https://open.feishu.cn/open-apis/bot/v2/hook/****")
    );
    assert!(!format!("{dto:?}").contains("open-apis/bot/v2/hook/abcd"));
}

#[test]
fn uuid_text_is_hyphenated_lower_case_hex() {
    assert_eq!(
        uuid_to_string(0x0123456789abcdef0123456789ABCDEF),
        "01234567-89ab-cdef-0123-456789abcdef"
    );
    assert_eq!(uuid_to_string(0), "00000000-0000-0000-0000-000000000000");
}
