use polymarket_backend::decimal::Decimal;
use polymarket_backend::json::{Json, JsonNumber};
use polymarket_backend::model::baseline::{BaselineDirectionConfig, BaselineDirectionModel, StrategyModel};
use polymarket_backend::model::types::{
    ModelAction, ModelAssignment, ModelCandle, ModelContext, ModelPolymarket, ModelPortfolio, ModelSide,
    ModelTickInput, ModelWindow,
};
use polymarket_backend::realtime::types::MarketKey;

const NANOS: i128 = 1_000_000_000;

fn bd(value: &str) -> Decimal {
    Decimal::parse(value).expect("decimal literal should parse")
}

fn str_field(value: &Json, key: &str) -> Option<String> {
    value.get(key).and_then(|v| v.as_str()).cloned()
}

#[test]
fn baseline_returns_no_trade_before_decision_offset() {
    let model = BaselineDirectionModel::btc5m_default();
    let mut context = sample_context(MarketKey::Btc5m);
    context.window.elapsed_ms = 30_000;

    let decision = model.decide(&context);

    assert_eq!(decision.action, ModelAction::NoTrade);
    assert_eq!(decision.reason, "waiting for decision offset");
}

#[test]
fn baseline_returns_no_trade_when_move_is_below_threshold() {
    let model = BaselineDirectionModel::btc5m_default();
    let mut context = sample_context(MarketKey::Btc5m);
    context.latest_tick.price = bd("100.01");

    let decision = model.decide(&context);

    assert_eq!(decision.action, ModelAction::NoTrade);
    assert_eq!(decision.reason, "move below threshold");
}

#[test]
fn baseline_returns_up_candidate_with_ttl_limit_price_size_and_features() {
    let model = BaselineDirectionModel::btc5m_default();
    let mut context = sample_context(MarketKey::Btc5m);
    context.latest_tick.price = bd("110");
    context.polymarket.up_price = Some(bd("0.50"));

    let decision = model.decide(&context);

    assert_eq!(decision.action, ModelAction::Candidate);
    assert_eq!(decision.side, Some(ModelSide::Up));
    assert_eq!(decision.limit_price, Some(bd("0.50")));
    assert_eq!(decision.suggested_size, Some(bd("1.5")));
    assert_eq!(decision.ttl_ms(), Some(15_000));
    assert_eq!(str_field(decision.features(), "model_key").as_deref(), Some("baseline_direction"));
    assert_eq!(str_field(decision.features(), "model_version").as_deref(), Some("0.1.0"));
    assert_eq!(str_field(decision.features(), "market_key").as_deref(), Some("btc5m"));
    assert_eq!(str_field(decision.features(), "return_bps").as_deref(), Some("1000"));
    assert_eq!(str_field(decision.features(), "input_snapshot_hash"), Some(context.input_snapshot_hash()));
}

#[test]
fn baseline_returns_down_candidate_using_down_price() {
    let model = BaselineDirectionModel::eth15m_default();
    let mut context = sample_context(MarketKey::Eth15m);
    context.latest_tick.price = bd("90");
    context.polymarket.down_price = Some(bd("0.48"));

    let decision = model.decide(&context);

    assert_eq!(decision.action, ModelAction::Candidate);
    assert_eq!(decision.side, Some(ModelSide::Down));
    assert_eq!(decision.limit_price, Some(bd("0.48")));
    assert_eq!(decision.ttl_ms(), Some(15_000));
}

#[test]
fn baseline_is_deterministic_for_identical_context() {
    let model = BaselineDirectionModel::new(BaselineDirectionConfig::default());
    let context = sample_context(MarketKey::Btc5m);

    assert_eq!(model.decide(&context), model.decide(&context));
}

#[test]
fn baseline_model_names_its_key_and_version() {
    let model = BaselineDirectionModel::btc5m_default();
    assert_eq!(model.key(), "baseline_direction");
    assert_eq!(model.version(), "0.1.0");
}

fn sample_context(market_key: MarketKey) -> ModelContext {
    let start_ts = 1_779_330_300 * NANOS;
    ModelContext {
        market_key,
        symbol: market_key.symbol().to_string(),
        assignment: ModelAssignment {
            model_key: "baseline_direction".to_string(),
            model_version: "0.1.0".to_string(),
            parameters: Json::Object(vec![(
                "threshold_bps".to_string(),
                Json::Number(JsonNumber { text: "4".to_string(), as_i64: Some(4) }),
            )]),
        },
        window: ModelWindow {
            event_slug: format!("{}-window", market_key.as_str()),
            start_ts,
            end_ts: start_ts + market_key.interval_seconds() as i128 * NANOS,
            elapsed_ms: 180_000,
        },
        latest_tick: ModelTickInput {
            source: "coinbase".to_string(),
            source_ts: start_ts + 180 * NANOS,
            received_at: start_ts + 181 * NANOS,
            price: bd("100"),
            size: Some(bd("0.25")),
            sequence: Some(42),
        },
        candles: vec![ModelCandle {
            start_ts,
            open: bd("100"),
            high: bd("100"),
            low: bd("100"),
            close: bd("100"),
            volume: bd("3.5"),
        }],
        polymarket: ModelPolymarket {
            event_slug: format!("{}-window", market_key.as_str()),
            up_price: Some(bd("0.51")),
            down_price: Some(bd("0.49")),
            spread: Some(bd("0.02")),
            liquidity: Some(bd("12500")),
        },
        portfolio: ModelPortfolio { bankroll: bd("15"), max_signal_size: bd("1.5") },
    }
}

#[test]
fn no_trade_decision_sets_nothing_but_its_reason() {
    let model = BaselineDirectionModel::btc5m_default();
    let mut context = sample_context(MarketKey::Btc5m);
    context.window.elapsed_ms = 30_000;

    let decision = model.decide(&context);

    assert_eq!(decision.ttl_ms(), None);
    assert_eq!(decision.side, None);
    assert!(decision.confidence.is_none());
    assert!(decision.limit_price.is_none());
    assert!(decision.suggested_size.is_none());
    assert_eq!(decision.features, Json::Object(Vec::new()));
}

#[test]
fn baseline_can_decide_only_on_decimals_of_moderate_scale() {
    let model = BaselineDirectionModel::btc5m_default();
    let mut context = sample_context(MarketKey::Btc5m);
    assert!(model.can_decide(&context));
    context.latest_tick.price = bd("1e-576460752303423488");
    assert!(model.can_decide(&context));
    context.latest_tick.price = bd("1e-576460752303423489");
    assert!(!model.can_decide(&context));
}
