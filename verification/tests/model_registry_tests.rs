use polymarket_backend::model::baseline::{
    BaselineDirectionModel, StrategyModel, BASELINE_DIRECTION_KEY, BASELINE_DIRECTION_VERSION,
};
use polymarket_backend::model::registry::ModelRegistry;

#[test]
fn built_in_registry_resolves_baseline_assignment() {
    let registry = ModelRegistry::built_ins();
    let model = registry
        .get(BASELINE_DIRECTION_KEY, BASELINE_DIRECTION_VERSION)
        .expect("baseline model should be registered");

    assert_eq!(model.key(), BASELINE_DIRECTION_KEY);
    assert_eq!(model.version(), BASELINE_DIRECTION_VERSION);
}

#[test]
fn registry_rejects_unknown_model_version() {
    let registry = ModelRegistry::built_ins();

    assert!(registry.get(BASELINE_DIRECTION_KEY, "9.9.9").is_none());
}

#[test]
fn registry_lists_registered_versions_in_stable_order() {
    let registry = ModelRegistry::built_ins();

    assert_eq!(
        registry.model_versions(),
        vec![(BASELINE_DIRECTION_KEY.to_string(), BASELINE_DIRECTION_VERSION.to_string())]
    );
}

#[test]
fn registering_the_same_version_again_replaces_it() {
    let mut registry = ModelRegistry::new();
    registry.register(BaselineDirectionModel::btc5m_default());
    registry.register(BaselineDirectionModel::eth15m_default());
    assert_eq!(registry.model_versions().len(), 1);
    let from_model = ModelRegistry::from_model(BaselineDirectionModel::btc5m_default());
    assert!(from_model.get("baseline_direction", "0.1.0").is_some());
    assert!(from_model.get("other", "0.1.0").is_none());
}
