use polymarket_backend::decimal::Decimal;
use polymarket_backend::notification::feishu::render_feishu_card;
use polymarket_backend::json::Json;
use polymarket_backend::notification::runtime::{
    after_send_attempt, card_input, channel_selected, dedupe_key, deliverable_channels, enqueue_result,
    mark_dedupe, market_label, mask_webhook_url, max_attempts, send_timeout_ms, should_notify,
    update_metrics, DedupeSet, NotificationCounter, SendStep,
};
use polymarket_backend::notification::types::{
    NotificationError, NotificationJob, NotificationRuntimeConfig, NotificationRuntimeSnapshot,
    NotificationSendOutcome,
};
use polymarket_backend::queue::TrySendOutcome;
use polymarket_backend::storage::types::{NotificationChannelRecord, SignalWithMarketRecord};

#[test]
fn notification_error_summary_redacts_feishu_webhook_secret() {
    let error = NotificationError::SendFailed(
        "request error for https://open.feishu.cn/open-apis/bot/v2/hook/secret-token".to_string(),
    );

    let summary = error.safe_summary();

    assert!(summary.contains("/hook/****"));
    assert!(!summary.contains("secret-token"));
}

#[test]
fn error_messages_and_summaries_of_every_variant() {
    assert_eq!(NotificationError::QueueFull.message(), "notification queue is full");
    assert_eq!(NotificationError::QueueClosed.message(), "notification queue is closed");
    assert_eq!(NotificationError::Timeout.safe_summary(), "notification send timed out");
    let error = NotificationError::SendFailed("a /hook/x y /hook/zz".to_string());
    assert_eq!(error.safe_summary(), "notification send failed: a /hook/**** y /hook/****");
}

#[test]
fn webhook_urls_are_masked_to_scheme_host_and_suffix() {
    assert_eq!(
        mask_webhook_url("https://open.feishu.cn/open-apis/bot/v2/hook/secret-token"),
        "https://open.feishu.cn/.../oken"
    );
    assert_eq!(mask_webhook_url("https://example.com"), "https://example.com/.../.com");
    assert_eq!(mask_webhook_url("abc"), ".../abc");
    assert_eq!(market_label("btc5m"), "BTC 5m");
    assert_eq!(market_label("eth15m"), "ETH 15m");
    assert_eq!(market_label("sol1h"), "sol1h");
}

fn signal(market_key: &str) -> SignalWithMarketRecord {
    SignalWithMarketRecord {
        id: 1,
        market_key: market_key.to_string(),
        market_window_id: 0x1234,
        model_version_id: 0xabcdef,
        signal_type: "actionable_alert".to_string(),
        side: Some("Up".to_string()),
        confidence: Decimal::parse("0.68"),
        limit_price: Decimal::parse("0.52"),
        suggested_size: Decimal::parse("1.50"),
        ttl_ms: Some(15_000),
        reason: "directional threshold crossed".to_string(),
        features: Json::Object(vec![("return_bps".to_string(), Json::Str("8.4".to_string()))]),
        input_snapshot_hash: "snapshot-1".to_string(),
        created_at: 0,
    }
}

fn channel(id: u128, market_key: &str, kind: &str, enabled: bool) -> NotificationChannelRecord {
    NotificationChannelRecord {
        id,
        market_key: market_key.to_string(),
        channel_type: kind.to_string(),
        name: "primary".to_string(),
        webhook_url: "https://open.feishu.cn/open-apis/bot/v2/hook/secret-token".to_string(),
        enabled,
        created_at: 0,
    }
}

#[test]
fn only_enabled_feishu_channels_of_the_market_take_a_job() {
    let job = NotificationJob {
        signal: signal("btc5m"),
        channels: vec![
            channel(1, "btc5m", "feishu", true),
            channel(2, "btc5m", "feishu", false),
            channel(3, "btc5m", "email", true),
            channel(4, "eth15m", "feishu", true),
            channel(5, "btc5m", "feishu", true),
        ],
    };
    assert_eq!(deliverable_channels(&job), vec![0, 4]);
    assert!(channel_selected(&job, &job.channels[0]));
    assert!(!channel_selected(&job, &job.channels[3]));
    assert!(should_notify(&job.signal));
}

#[test]
fn dedupe_keys_use_the_market_window_and_refuse_repeats() {
    let job = NotificationJob { signal: signal("btc5m"), channels: vec![channel(7, "btc5m", "feishu", true)] };
    let key = dedupe_key(&job, &job.channels[0]);
    assert_eq!(key, "00000000-0000-0000-0000-000000001234:00000000-0000-0000-0000-000000000007");
    let mut seen = DedupeSet::new();
    assert!(mark_dedupe(&mut seen, &key));
    assert!(!mark_dedupe(&mut seen, &key));
    assert!(mark_dedupe(&mut seen, "other"));
    assert_eq!(seen.len(), 2);
}

#[test]
fn card_input_copies_the_signal_and_masks_the_channel() {
    let job = NotificationJob { signal: signal("btc5m"), channels: vec![channel(7, "btc5m", "feishu", true)] };
    let input = card_input(&job, &job.channels[0]);
    assert_eq!(input.market_label, "BTC 5m");
    assert_eq!(input.side, "UP");
    assert_eq!(input.confidence, "0.68");
    assert_eq!(input.limit_price, "0.52");
    assert_eq!(input.suggested_size, "1.50");
    assert_eq!(input.ttl_ms, 15_000);
    assert_eq!(input.model_key, "model");
    assert_eq!(input.model_version, "00000000-0000-0000-0000-000000abcdef");
    assert_eq!(input.channel.webhook_url_masked, "https://open.feishu.cn/.../oken");
    assert_eq!(input.features.to_text(), "{\"return_bps\":\"8.4\"}");

    let mut bare = signal("eth15m");
    bare.side = None;
    bare.confidence = None;
    bare.ttl_ms = None;
    let job = NotificationJob { signal: bare, channels: vec![] };
    let input = card_input(&job, &channel(1, "eth15m", "feishu", true));
    assert_eq!(input.side, "UNKNOWN");
    assert_eq!(input.confidence, "n/a");
    assert_eq!(input.ttl_ms, 0);
}

#[test]
fn sends_retry_with_growing_delays_until_the_last_attempt() {
    let config = NotificationRuntimeConfig { max_attempts: 3, send_timeout_ms: 0, retry_base_delay_ms: 5 };
    assert_eq!(max_attempts(&config), 3);
    assert_eq!(send_timeout_ms(&config), 1);
    match after_send_attempt(&config, 1, Err(NotificationError::Timeout)) {
        SendStep::Retry { next_attempt, delay_ms } => {
            assert_eq!(next_attempt, 2);
            assert_eq!(delay_ms, 10);
        },
        other => panic!("unexpected step {other:?}"),
    }
    match after_send_attempt(&config, 3, Err(NotificationError::SendFailed("x/hook/abc".to_string()))) {
        SendStep::Finished { sent, attempt_count, response_summary } => {
            assert!(!sent);
            assert_eq!(attempt_count, 3);
            assert_eq!(response_summary.as_deref(), Some("notification send failed: x/hook/abc"));
        },
        other => panic!("unexpected step {other:?}"),
    }
    match after_send_attempt(&config, 2, Ok(NotificationSendOutcome { response_summary: Some("ok".to_string()) })) {
        SendStep::Finished { sent, attempt_count, .. } => {
            assert!(sent);
            assert_eq!(attempt_count, 2);
        },
        other => panic!("unexpected step {other:?}"),
    }
    let zero = NotificationRuntimeConfig { max_attempts: 0, send_timeout_ms: 9, retry_base_delay_ms: 0 };
    assert_eq!(max_attempts(&zero), 1);
    assert!(matches!(after_send_attempt(&zero, 1, Err(NotificationError::Timeout)), SendStep::Finished { sent: false, .. }));
}

#[test]
fn enqueue_outcomes_and_counters() {
    let mut metrics = NotificationRuntimeSnapshot::zero();
    let (result, counter) = enqueue_result(TrySendOutcome::Full);
    assert_eq!(result, Err(NotificationError::QueueFull));
    update_metrics(&mut metrics, counter.unwrap());
    let (result, counter) = enqueue_result(TrySendOutcome::Sent);
    assert_eq!(result, Ok(()));
    update_metrics(&mut metrics, counter.unwrap());
    let (result, counter) = enqueue_result(TrySendOutcome::Closed);
    assert_eq!(result, Err(NotificationError::QueueClosed));
    assert!(counter.is_none());
    update_metrics(&mut metrics, NotificationCounter::Retried);
    assert_eq!(metrics.accepted, 1);
    assert_eq!(metrics.dropped, 1);
    assert_eq!(metrics.retried, 1);
    assert_eq!(metrics.sent, 0);
}

#[test]
fn cards_differ_in_no_raw_webhook_detail() {
    let job = NotificationJob { signal: signal("btc5m"), channels: vec![channel(7, "btc5m", "feishu", true)] };
    let mut other = channel(7, "btc5m", "feishu", true);
    other.webhook_url = "https://open.feishu.cn/open-apis/bot/v2/hook/another-token".to_string();
    let a = render_feishu_card(&card_input(&job, &job.channels[0])).to_text();
    let b = render_feishu_card(&card_input(&job, &other)).to_text();
    assert_eq!(a, b);
    assert!(a.starts_with(
        "{\"card\":{\"config\":{\"wide_screen_mode\":true},\"elements\":[{\"tag\":\"div\",\"text\":{\"content\":\"**BTC 5m / UP**\\n"
    ));
    assert!(a.contains("},{\"tag\":\"hr\"},{\"tag\":\"div\""));
    assert!(a.ends_with("\"header\":{\"template\":\"green\",\"title\":{\"content\":\"Polymarket BTC 5m / UP\",\"tag\":\"plain_text\"}}},\"msg_type\":\"interactive\"}"));
    assert!(!a.contains("secret-token"));
    assert!(!b.contains("another-token"));
}
