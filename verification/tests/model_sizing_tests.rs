use polymarket_backend::decimal::Decimal;
use polymarket_backend::model::sizing::{SizingConfig, SizingEngine};

fn bd(value: &str) -> Decimal {
    Decimal::parse(value).expect("decimal literal should parse")
}

#[test]
fn fractional_kelly_sizes_positive_edge_and_clamps_to_max_size() {
    let engine = SizingEngine::new(SizingConfig {
        bankroll: bd("15"),
        fraction: bd("0.5"),
        max_size: bd("1.5"),
        min_size: bd("0.5"),
    });

    let size = engine.suggest_size(&bd("0.60"), &bd("0.50")).expect("positive edge should produce a size");

    assert_eq!(size, bd("1.5"));
}

#[test]
fn fractional_kelly_returns_none_when_edge_is_not_positive() {
    let engine = SizingEngine::default_for_bankroll(bd("15"));

    assert_eq!(engine.suggest_size(&bd("0.50"), &bd("0.55")), None);
}

#[test]
fn fractional_kelly_returns_none_when_size_is_below_minimum() {
    let engine = SizingEngine::new(SizingConfig {
        bankroll: bd("15"),
        fraction: bd("0.25"),
        max_size: bd("1.5"),
        min_size: bd("0.5"),
    });

    assert_eq!(engine.suggest_size(&bd("0.53"), &bd("0.52")), None);
}

#[test]
fn fractional_kelly_rejects_invalid_probability_or_price() {
    let engine = SizingEngine::default_for_bankroll(bd("15"));

    assert_eq!(engine.suggest_size(&bd("1.01"), &bd("0.50")), None);
    assert_eq!(engine.suggest_size(&bd("0.60"), &bd("1.00")), None);
    assert_eq!(engine.suggest_size(&bd("0.60"), &bd("0.00")), None);
}

#[test]
fn fractional_kelly_sizes_inside_the_band_exactly() {
    let engine = SizingEngine::new(SizingConfig {
        bankroll: bd("10"),
        fraction: bd("0.5"),
        max_size: bd("5"),
        min_size: bd("0.1"),
    });
    // edge = (0.6 - 0.5) / (1 - 0.5) = 0.2; 10 * 0.2 * 0.5 = 1
    assert_eq!(engine.suggest_size(&bd("0.6"), &bd("0.5")), Some(bd("1")));
}

#[test]
fn decimal_scales_beyond_the_limit_are_refused_by_parse() {
    assert!(Decimal::parse("1e-4611686018427387903").is_some());
    assert!(Decimal::parse("1e-4611686018427387904").is_none());
    assert!(Decimal::parse("1e4611686018427387904").is_none());
}

#[test]
fn products_fit_only_when_the_scales_add_within_the_limit() {
    let tiny = Decimal::parse("1e-4611686018427387903").unwrap();
    let small = Decimal::parse("0.52").unwrap();
    assert!(small.fits_product(&small));
    assert!(!tiny.fits_product(&tiny));
    assert!(tiny.is_within(4611686018427387903));
    assert!(!tiny.is_within(4294967296));
    assert!(small.is_within(2));
    assert!(!small.is_within(1));
}

#[test]
fn differences_keep_the_scale_rules_of_each_form() {
    let d = |t: &str| Decimal::parse(t).unwrap();
    assert_eq!(d("1.5").sub(&d("0.25")).to_text(), "1.25");
    assert_eq!(d("0.00").sub(&d("2.5")).to_text(), "-2.50");
    assert_eq!(d("0.00").sub_owned(&d("2.5")).to_text(), "-2.5");
    assert_eq!(d("0.00").sub_owned_ref(&d("2.5")).to_text(), "-2.5");
    assert_eq!(d("7.0").sub_owned_ref(&d("0.000")).to_text(), "7.0");
    let mut x = d("0.000");
    x.add_assign(&d("2.5"));
    assert_eq!(x.to_text(), "2.5");
}
