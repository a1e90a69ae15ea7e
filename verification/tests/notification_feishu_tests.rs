use polymarket_backend::json::Json;
use polymarket_backend::notification::feishu::{header_template, render_feishu_card};
use polymarket_backend::notification::types::{FeishuCardInput, NotificationChannelView};

const NANOS: i128 = 1_000_000_000;

#[test]
fn feishu_card_first_screen_contains_actionable_signal_text() {
    let card = render_feishu_card(&input());
    let text = card.to_text();

    assert_eq!(card.get("msg_type").and_then(|v| v.as_str()).map(|s| s.as_str()), Some("interactive"));
    assert!(text.contains("BTC 5m"));
    assert!(text.contains("UP"));
    assert!(text.contains("Limit 0.52"));
    assert!(text.contains("Size 1.50"));
    assert!(text.contains("TTL 15s"));
    assert!(text.contains("Confidence 0.68"));
    assert!(text.contains("baseline_direction@0.1.0"));
}

#[test]
fn feishu_card_keeps_analysis_after_key_fields() {
    let card = render_feishu_card(&input());
    let elements = card
        .get("card")
        .and_then(|c| c.get("elements"))
        .and_then(|e| e.as_array())
        .expect("card elements should be an array");
    let first_text = elements[0].to_text();
    let last_text = elements.last().expect("last element").to_text();

    assert!(first_text.contains("Limit 0.52"));
    assert!(first_text.contains("Size 1.50"));
    assert!(last_text.contains("directional threshold crossed"));
}

#[test]
fn feishu_card_payload_never_contains_webhook_url() {
    let card = render_feishu_card(&input());
    let text = card.to_text();

    assert!(!text.contains("secret-token"));
    assert!(text.contains("primary"));
    assert!(text.contains(".../oken"));
}

#[test]
fn feishu_card_header_colour_follows_side_and_window_is_shown() {
    assert_eq!(header_template("Up"), "green");
    assert_eq!(header_template("down"), "red");
    assert_eq!(header_template("DRY RUN"), "blue");
    let card = render_feishu_card(&input());
    let header = card.get("card").and_then(|c| c.get("header")).expect("header");
    assert_eq!(header.get("template").and_then(|v| v.as_str()).map(|s| s.as_str()), Some("green"));
    let text = card.to_text();
    assert!(text.contains("Window 1970-01-01 0:30:00.0 +00:00:00 - 1970-01-01 0:35:00.0 +00:00:00"));
    assert!(text.contains("Features {\\\"return_bps\\\":\\\"8.4\\\",\\\"threshold_bps\\\":\\\"4\\\"}"));
}

fn input() -> FeishuCardInput {
    FeishuCardInput {
        market_key: "btc5m".to_string(),
        market_label: "BTC 5m".to_string(),
        window_start: 1_800 * NANOS,
        window_end: 2_100 * NANOS,
        side: "UP".to_string(),
        confidence: "0.68".to_string(),
        limit_price: "0.52".to_string(),
        suggested_size: "1.50".to_string(),
        ttl_ms: 15_000,
        model_key: "baseline_direction".to_string(),
        model_version: "0.1.0".to_string(),
        reason: "directional threshold crossed".to_string(),
        features: Json::Object(vec![
            ("return_bps".to_string(), Json::Str("8.4".to_string())),
            ("threshold_bps".to_string(), Json::Str("4".to_string())),
        ]),
        channel: NotificationChannelView {
            name: "primary".to_string(),
            webhook_url_masked: "https://open.feishu.cn/.../oken".to_string(),
        },
    }
}
