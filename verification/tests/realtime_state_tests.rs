use polymarket_backend::decimal::Decimal;
use polymarket_backend::realtime::candle::CandleAggregator;
use polymarket_backend::realtime::types::{MarketKey, MarketTick, MAX_UNIX_SECONDS, MIN_UNIX_SECONDS, NANOS_PER_SECOND};
use polymarket_backend::timefmt::{datetime_to_string, utc_datetime_fields};
use polymarket_backend::realtime::window::window_for_tick;

const NANOS: i128 = 1_000_000_000;

fn seconds(s: i128) -> i128 {
    s * NANOS
}

fn decimal(text: &str) -> Decimal {
    Decimal::parse(text).expect("decimal literal")
}

#[test]
fn btc_5m_tick_maps_to_five_minute_market_window() {
    let tick_ts = seconds(1_779_330_456);

    let window = window_for_tick(MarketKey::Btc5m, tick_ts);

    assert_eq!(window.start_ts, seconds(1_779_330_300));
    assert_eq!(window.end_ts, seconds(1_779_330_600));
    assert_eq!(window.event_slug, "btc-updown-5m-1779330300");
}

#[test]
fn eth_15m_tick_maps_to_fifteen_minute_market_window() {
    let tick_ts = seconds(1_779_330_456);

    let window = window_for_tick(MarketKey::Eth15m, tick_ts);

    assert_eq!(window.start_ts, seconds(1_779_329_700));
    assert_eq!(window.end_ts, seconds(1_779_330_600));
    assert_eq!(window.event_slug, "eth-updown-15m-1779329700");
}

#[test]
fn candle_aggregator_tracks_ohlcv_for_one_minute_bucket() {
    let mut aggregator = CandleAggregator::new();
    let first_ts = seconds(1_779_330_305);
    let second_ts = seconds(1_779_330_320);
    let third_ts = seconds(1_779_330_352);

    aggregator.apply_tick(&tick_at(first_ts, "100.0", "0.5"));
    aggregator.apply_tick(&tick_at(second_ts, "105.5", "0.2"));
    aggregator.apply_tick(&tick_at(third_ts, "99.5", "0.3"));

    let candles = aggregator.snapshots();

    assert_eq!(candles.len(), 1);
    assert_eq!(candles[0].start_ts, seconds(1_779_330_300));
    assert_eq!(candles[0].open, decimal("100.0"));
    assert_eq!(candles[0].high, decimal("105.5"));
    assert_eq!(candles[0].low, decimal("99.5"));
    assert_eq!(candles[0].close, decimal("99.5"));
    assert_eq!(candles[0].volume, decimal("1.0"));
}

#[test]
fn candle_aggregator_orders_minutes_and_handles_negative_times() {
    let mut aggregator = CandleAggregator::new();
    aggregator.apply_tick(&tick_at(seconds(125), "2", "1"));
    aggregator.apply_tick(&tick_at(seconds(5), "1", "1"));
    aggregator.apply_tick(&tick_at(seconds(-1), "3", "1"));
    aggregator.apply_tick(&tick_at(seconds(61), "4", "1"));

    let candles = aggregator.snapshots();
    let starts: Vec<i128> = candles.iter().map(|c| c.start_ts).collect();
    assert_eq!(starts, vec![seconds(-60), seconds(0), seconds(60), seconds(120)]);
    for c in &candles {
        assert!(c.low.less_or_equal(&c.open) && c.open.less_or_equal(&c.high));
        assert!(c.low.less_or_equal(&c.close) && c.close.less_or_equal(&c.high));
    }
}

#[test]
fn candle_without_size_adds_nothing_to_volume() {
    let mut aggregator = CandleAggregator::new();
    let mut tick = tick_at(seconds(10), "100", "2.5");
    aggregator.apply_tick(&tick);
    tick.size = None;
    aggregator.apply_tick(&tick);
    assert_eq!(aggregator.snapshots()[0].volume, decimal("2.5"));
}

fn tick_at(source_ts: i128, price: &str, size: &str) -> MarketTick {
    MarketTick {
        market_key: MarketKey::Btc5m,
        symbol: "BTC-USD".to_string(),
        source: "coinbase".to_string(),
        source_ts,
        received_at: source_ts + seconds(1),
        price: decimal(price),
        size: Some(decimal(size)),
        sequence: None,
    }
}

#[test]
fn the_calendar_range_ends_are_read_without_failing() {
    let first = MIN_UNIX_SECONDS * NANOS_PER_SECOND;
    assert_eq!(utc_datetime_fields(first), (-9999, 1, 0, 0, 0, 0));
    assert!(!datetime_to_string(first).is_empty());
    let last = (MAX_UNIX_SECONDS + 1) * NANOS_PER_SECOND - 1;
    assert_eq!(utc_datetime_fields(last), (9999, 365, 23, 59, 59, 999_999_999));
    assert!(!datetime_to_string(last).is_empty());
}
