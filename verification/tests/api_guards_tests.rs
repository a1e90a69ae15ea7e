use polymarket_backend::api::guards::{
    assignment_display_name, channel_request, default_source, dry_run_card_input, dry_run_channels,
    dry_run_title, market_label, non_empty, query_limit, require_admin_token, supported_market,
    supported_market_keys, ApiRejection, DRY_RUN_REASON,
};
use polymarket_backend::config::{AppConfig, Environment};
use polymarket_backend::health::HealthResponse;
use polymarket_backend::realtime::types::MarketKey;
use polymarket_backend::storage::types::NotificationChannelRecord;
use polymarket_backend::storage::writer::StorageWriterMetrics;

fn strings(items: &[&str]) -> Vec<String> {
    items.iter().map(|s| s.to_string()).collect()
}

#[test]
fn market_state_api_rejects_unknown_market() {
    let supported = strings(&["btc5m"]);
    assert_eq!(supported_market(&supported, "btc5m"), Ok(MarketKey::Btc5m));
    assert_eq!(supported_market(&supported, "eth15m"), Err(ApiRejection::NotFound));
    assert_eq!(supported_market(&supported, "doge1m"), Err(ApiRejection::NotFound));
}

#[test]
fn model_assignment_api_rejects_missing_admin_token() {
    assert_eq!(require_admin_token(None, Some("Bearer x")), Err(ApiRejection::ServiceUnavailable));
    assert_eq!(require_admin_token(Some("s3"), None), Err(ApiRejection::Unauthorized));
    assert_eq!(require_admin_token(Some("s3"), Some("Bearer   ")), Err(ApiRejection::Unauthorized));
    assert_eq!(require_admin_token(Some("s3"), Some("Basic s3")), Err(ApiRejection::Unauthorized));
    assert_eq!(require_admin_token(Some("s3"), Some("Bearer wrong")), Err(ApiRejection::Unauthorized));
    assert_eq!(require_admin_token(Some("s3"), Some("Bearer  s3 ")), Ok(()));
}

#[test]
fn request_fields_are_trimmed_and_required() {
    assert_eq!(non_empty("  name "), Ok("name".to_string()));
    assert_eq!(non_empty(" \t"), Err(ApiRejection::BadRequest));
    assert_eq!(query_limit(None, 60, 1, 500), 60);
    assert_eq!(query_limit(Some(0), 60, 1, 500), 1);
    assert_eq!(query_limit(Some(900), 60, 1, 500), 500);
    assert_eq!(assignment_display_name("baseline", Some("  ")), "baseline");
    assert_eq!(assignment_display_name("baseline", Some("Baseline v1")), "Baseline v1");
    assert_eq!(assignment_display_name("baseline", None), "baseline");
}

#[test]
fn notification_channels_api_upserts_feishu_channel() {
    let channel = channel_request(MarketKey::Eth15m, " feishu ", " primary ", " https://hook ", true).unwrap();
    assert_eq!(channel.market_key, "eth15m");
    assert_eq!(channel.channel_type, "feishu");
    assert_eq!(channel.name, "primary");
    assert_eq!(channel.webhook_url, "https://hook");
    assert!(channel.enabled);
    assert!(channel_request(MarketKey::Eth15m, "email", "x", "y", true).is_err());
    assert!(channel_request(MarketKey::Eth15m, "feishu", "", "y", true).is_err());
}

#[test]
fn markets_are_listed_in_key_order_with_labels_and_sources() {
    let keys = supported_market_keys(&strings(&["eth15m", "sol", "btc5m", "eth15m"]));
    assert_eq!(keys, vec![MarketKey::Btc5m, MarketKey::Eth15m, MarketKey::Eth15m]);
    assert_eq!(market_label(MarketKey::Btc5m), "BTC 5m");
    assert_eq!(market_label(MarketKey::Eth15m), "ETH 15m");
    assert_eq!(default_source(MarketKey::Eth15m), "coinbase");
}

fn channel(name: &str, kind: &str, enabled: bool) -> NotificationChannelRecord {
    NotificationChannelRecord {
        id: 1,
        market_key: "btc5m".to_string(),
        channel_type: kind.to_string(),
        name: name.to_string(),
        webhook_url: "https://open.feishu.cn/open-apis/bot/v2/hook/secret-token".to_string(),
        enabled,
        created_at: 0,
    }
}

#[test]
fn feishu_dry_run_api_sends_enabled_channels_and_masks_webhooks() {
    let channels = vec![
        channel("primary", "feishu", true),
        channel("backup", "feishu", true),
        channel("off", "feishu", false),
        channel("mail", "email", true),
    ];
    assert_eq!(dry_run_channels(&channels, None), vec![0, 1]);
    assert_eq!(dry_run_channels(&channels, Some(" backup ")), vec![1]);
    assert_eq!(dry_run_channels(&channels, Some("  ")), vec![0, 1]);
    assert_eq!(dry_run_title(MarketKey::Btc5m), "Polymarket BTC 5m Dry Run");
    let input = dry_run_card_input(MarketKey::Btc5m, &channels[0], DRY_RUN_REASON, 0);
    assert_eq!(input.side, "DRY RUN");
    assert_eq!(input.channel.webhook_url_masked, "https://open.feishu.cn/.../oken");
    assert_eq!(input.features.to_text(), "{\"dry_run\":true,\"orders_created\":false,\"signals_created\":false}");
}

#[test]
fn healthz_returns_structured_service_status() {
    let config = AppConfig::from_env_map(&Vec::new()).unwrap();
    let health = HealthResponse::from_config(&config, None);
    assert_eq!(health.status, "ok");
    assert_eq!(health.service, "polymarket-backend");
    assert_eq!(health.environment, "local");
    assert_eq!(config.environment, Environment::Local);
    assert!(!health.database_configured);
    assert_eq!(health.supported_markets, vec!["btc5m", "eth15m"]);
    assert_eq!(health.build.version, health.version);
    assert!(health.storage_writer.is_none());
}

#[test]
fn healthz_exposes_storage_writer_metrics_when_configured() {
    let config = AppConfig::from_env_map(&Vec::new()).unwrap();
    let snapshot = StorageWriterMetrics::new().snapshot(8, 8, false);
    let health = HealthResponse::from_config(&config, Some(snapshot));
    let writer = health.storage_writer.expect("writer snapshot");
    assert_eq!(writer.queued_capacity, 8);
    assert_eq!(writer.task_status, "running");
}
