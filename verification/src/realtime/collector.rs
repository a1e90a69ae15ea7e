//! Collector logic: subscription messages, Coinbase message handling,
//! Polymarket market metadata extraction and snapshot payload assembly.
use vstd::prelude::*;

use crate::json::{find_field, json_get, json_get_str, json_text, lemma_find_field_at, lemma_find_field_none, push_field, Json};
use crate::realtime::normalize::{
    normalize_coinbase_ticker, normalize_polymarket_snapshot, normalize_ticker_fields, opt_json,
    snapshot_outcome, ticker_outcome, ticker_outcome_of,
};
use crate::realtime::types::{
    opt_parts, MarketKey, MarketTick, MarketTickView, RealtimeError, RealtimeErrorView, RealtimeEvent,
    RealtimeEventView,
};
use crate::text::{
    ascii_lowercase, chars_eq, chars_of, push_str, string_of, texts, to_ascii_lowercase,
};

verus! {

/// Coinbase Advanced Trade websocket endpoint.
pub const COINBASE_WS_ENDPOINT: &'static str = "wss://advanced-trade-ws.coinbase.com";

/// Polymarket market websocket endpoint.
pub const POLYMARKET_MARKET_WS_ENDPOINT: &'static str =
    "wss://ws-subscriptions-clob.polymarket.com/ws/market";

/// Polymarket Gamma events API.
pub const POLYMARKET_GAMMA_EVENTS_BASE_URL: &'static str = "https://gamma-api.polymarket.com/events";

/// Polymarket CLOB prices API.
pub const POLYMARKET_CLOB_PRICES_URL: &'static str = "https://clob.polymarket.com/prices";

/// `Duration::from_secs`.
pub assume_specification[ core::time::Duration::from_secs ](secs: u64) -> core::time::Duration;

#[verifier::external_type_specification]
#[verifier::external_body]
pub struct ExTimeDuration(time::Duration);

/// `time::Duration::seconds`.
pub assume_specification[ time::Duration::seconds ](seconds: i64) -> time::Duration;

/// Settings of the Coinbase websocket collector.
#[derive(Debug)]
pub struct CoinbaseCollectorConfig {
    pub endpoint: String,
    pub symbols: Vec<String>,
    pub connect_timeout: core::time::Duration,
    pub proxy: Option<String>,
}

impl Default for CoinbaseCollectorConfig {
    fn default() -> (r: Self)
        ensures
            r.endpoint@ == COINBASE_WS_ENDPOINT@,
            r.symbols@.len() == 2,
            r.symbols@[0]@ == "BTC-USD"@,
            r.symbols@[1]@ == "ETH-USD"@,
            r.proxy.is_none(),
    {
        CoinbaseCollectorConfig {
            endpoint: string_of(COINBASE_WS_ENDPOINT),
            symbols: vec![string_of("BTC-USD"), string_of("ETH-USD")],
            connect_timeout: core::time::Duration::from_secs(10),
            proxy: None,
        }
    }
}

/// Settings of the Polymarket snapshot refresher.
#[derive(Debug)]
pub struct PolymarketSnapshotRefresherConfig {
    pub market_ws_endpoint: String,
    pub gamma_events_base_url: String,
    pub clob_prices_url: String,
    pub markets: Vec<MarketKey>,
    pub interval: time::Duration,
    pub request_timeout: core::time::Duration,
    pub http_proxy: Option<String>,
}

impl Default for PolymarketSnapshotRefresherConfig {
    fn default() -> (r: Self)
        ensures
            r.market_ws_endpoint@ == POLYMARKET_MARKET_WS_ENDPOINT@,
            r.gamma_events_base_url@ == POLYMARKET_GAMMA_EVENTS_BASE_URL@,
            r.clob_prices_url@ == POLYMARKET_CLOB_PRICES_URL@,
            r.markets@ == seq![MarketKey::Btc5m, MarketKey::Eth15m],
            r.http_proxy.is_none(),
    {
        PolymarketSnapshotRefresherConfig {
            market_ws_endpoint: string_of(POLYMARKET_MARKET_WS_ENDPOINT),
            gamma_events_base_url: string_of(POLYMARKET_GAMMA_EVENTS_BASE_URL),
            clob_prices_url: string_of(POLYMARKET_CLOB_PRICES_URL),
            markets: vec![MarketKey::Btc5m, MarketKey::Eth15m],
            interval: time::Duration::seconds(15),
            request_timeout: core::time::Duration::from_secs(10),
            http_proxy: None,
        }
    }
}

/// Token ids and fallback prices of one Polymarket Up/Down market.
#[derive(Debug, Clone, PartialEq, Eq)]
pub struct PolymarketMarketMetadata {
    pub market_key: MarketKey,
    pub event_slug: String,
    pub up_token_id: String,
    pub down_token_id: String,
    pub fallback_up_price: Option<String>,
    pub fallback_down_price: Option<String>,
    pub liquidity: Option<String>,
    pub spread: Option<String>,
    pub accepting_orders: Option<bool>,
    pub closed: Option<bool>,
}

/// Market metadata with texts as character sequences.
pub struct MetadataView {
    pub market_key: MarketKey,
    pub event_slug: Seq<char>,
    pub up_token_id: Seq<char>,
    pub down_token_id: Seq<char>,
    pub fallback_up_price: Option<Seq<char>>,
    pub fallback_down_price: Option<Seq<char>>,
    pub liquidity: Option<Seq<char>>,
    pub spread: Option<Seq<char>>,
    pub accepting_orders: Option<bool>,
    pub closed: Option<bool>,
}

/// The text of an optional string.
pub open spec fn opt_text(s: Option<String>) -> Option<Seq<char>> {
    match s {
        Some(v) => Some(v@),
        None => None,
    }
}

impl View for PolymarketMarketMetadata {
    type V = MetadataView;

    open spec fn view(&self) -> MetadataView {
        MetadataView {
            market_key: self.market_key,
            event_slug: self.event_slug@,
            up_token_id: self.up_token_id@,
            down_token_id: self.down_token_id@,
            fallback_up_price: opt_text(self.fallback_up_price),
            fallback_down_price: opt_text(self.fallback_down_price),
            liquidity: opt_text(self.liquidity),
            spread: opt_text(self.spread),
            accepting_orders: self.accepting_orders,
            closed: self.closed,
        }
    }
}

/// Raw events that collectors hand in.
#[derive(Debug)]
pub enum CollectorEvent {
    CoinbaseTicker { payload: Json, received_at: i128 },
    PolymarketSnapshot { market_key: MarketKey, payload: Json, captured_at: i128 },
    Heartbeat { source: String, received_at: i128 },
}

/// Errors of the collectors' own logic.
#[derive(Debug, PartialEq, Eq)]
pub enum CollectorRunError {
    ConnectTimeout,
    Realtime(RealtimeError),
    PolymarketMetadata(String),
    PolymarketJsonField { field: &'static str, error: String },
}

/// A collector error with its texts as character sequences.
pub enum CollectorErrorView {
    ConnectTimeout,
    Realtime(RealtimeErrorView),
    PolymarketMetadata(Seq<char>),
    PolymarketJsonField(Seq<char>, Seq<char>),
}

impl View for CollectorRunError {
    type V = CollectorErrorView;

    open spec fn view(&self) -> CollectorErrorView {
        match self {
            CollectorRunError::ConnectTimeout => CollectorErrorView::ConnectTimeout,
            CollectorRunError::Realtime(e) => CollectorErrorView::Realtime(e@),
            CollectorRunError::PolymarketMetadata(m) => CollectorErrorView::PolymarketMetadata(m@),
            CollectorRunError::PolymarketJsonField { field, error } => {
                CollectorErrorView::PolymarketJsonField(field@, error@)
            },
        }
    }
}

impl CollectorRunError {
    /// The error message, as `Display` writes it.
    pub open spec fn message_spec(self) -> Seq<char> {
        match self {
            CollectorRunError::ConnectTimeout => "websocket connect timed out"@,
            CollectorRunError::Realtime(e) => "realtime error: "@ + e.message_spec(),
            CollectorRunError::PolymarketMetadata(m) => "polymarket metadata error: "@ + m@,
            CollectorRunError::PolymarketJsonField { field, error } => "polymarket json field "@ + field@
                + ": "@ + error@,
        }
    }

    /// The error message.
    pub fn message(&self) -> (r: String)
        ensures
            r@ == self.message_spec(),
    {
        let mut s = String::new();
        match self {
            CollectorRunError::ConnectTimeout => push_str(&mut s, "websocket connect timed out"),
            CollectorRunError::Realtime(e) => {
                push_str(&mut s, "realtime error: ");
                let m = e.message();
                push_str(&mut s, m.as_str());
            },
            CollectorRunError::PolymarketMetadata(m) => {
                push_str(&mut s, "polymarket metadata error: ");
                push_str(&mut s, m.as_str());
            },
            CollectorRunError::PolymarketJsonField { field, error } => {
                push_str(&mut s, "polymarket json field ");
                push_str(&mut s, field);
                push_str(&mut s, ": ");
                push_str(&mut s, error.as_str());
            },
        }
        assert(s@ =~= self.message_spec());
        s
    }
}

/// The bus event a collector event becomes: a normalized tick, a normalized
/// snapshot with its payload kept, or the heartbeat as it is; or the error
/// its payload does not normalize with.
pub fn normalize_event(event: CollectorEvent) -> (r: Result<RealtimeEvent, RealtimeError>)
    ensures
        match event {
            CollectorEvent::CoinbaseTicker { payload, received_at } => match ticker_outcome(
                payload,
                received_at as int,
            ) {
                Ok(t) => (r matches Ok(RealtimeEvent::Tick(tick)) && tick@ == t),
                Err(e) => (r matches Err(err) && err@ == e),
            },
            CollectorEvent::PolymarketSnapshot { market_key, payload, captured_at } => match snapshot_outcome(
                payload,
            ) {
                Ok(v) => (r matches Ok(RealtimeEvent::PolymarketSnapshot(s)) && s.market_key == market_key
                    && s.captured_at == captured_at && s.event_slug@ == v.event_slug && opt_parts(
                    s.up_price,
                ) == v.up_price && opt_parts(s.down_price) == v.down_price && opt_parts(s.spread)
                    == v.spread && opt_parts(s.liquidity) == v.liquidity && s.payload == payload),
                Err(e) => (r matches Err(err) && err@ == e),
            },
            CollectorEvent::Heartbeat { source, received_at } => r == Ok::<RealtimeEvent, RealtimeError>(
                RealtimeEvent::SourceHeartbeat { source, received_at },
            ),
        },
{
    match event {
        CollectorEvent::CoinbaseTicker { payload, received_at } => {
            match normalize_coinbase_ticker(&payload, received_at) {
                Ok(tick) => Ok(RealtimeEvent::Tick(tick)),
                Err(e) => Err(e),
            }
        },
        CollectorEvent::PolymarketSnapshot { market_key, payload, captured_at } => {
            match normalize_polymarket_snapshot(market_key, payload, captured_at) {
                Ok(snapshot) => Ok(RealtimeEvent::PolymarketSnapshot(snapshot)),
                Err(e) => Err(e),
            }
        },
        CollectorEvent::Heartbeat { source, received_at } => Ok(
            RealtimeEvent::SourceHeartbeat { source, received_at },
        ),
    }
}

/// Where normalized realtime events are published.
pub trait CollectorEventSink {
    /// Publishes one event.
    fn try_publish(&self, event: RealtimeEvent) -> Result<(), RealtimeError>;
}

/// Normalizes collector events and publishes them to a sink.
pub struct CollectorIngress<S> {
    pub sink: S,
}

impl<S: CollectorEventSink> CollectorIngress<S> {
    /// An ingress that publishes to `sink`.
    pub fn new(sink: S) -> (r: CollectorIngress<S>)
        ensures
            r.sink == sink,
    {
        CollectorIngress { sink }
    }

    /// Normalizes an event and publishes it; a payload that does not normalize
    /// is reported and nothing is published.
    pub fn handle(&self, event: CollectorEvent) -> (r: Result<(), RealtimeError>)
        ensures
            event matches CollectorEvent::CoinbaseTicker { payload, received_at }
                ==> (ticker_outcome(payload, received_at as int) is Err ==> r is Err
                && r->Err_0@ == ticker_outcome(payload, received_at as int)->Err_0),
            event matches CollectorEvent::PolymarketSnapshot { payload, .. }
                ==> (snapshot_outcome(payload) is Err ==> r is Err && r->Err_0@
                == snapshot_outcome(payload)->Err_0),
    {
        let normalized = match normalize_event(event) {
            Ok(e) => e,
            Err(e) => return Err(e),
        };
        self.sink.try_publish(normalized)
    }
}

/// The Coinbase ticker subscription for the configured symbols.
pub fn build_coinbase_subscribe_message(config: &CoinbaseCollectorConfig) -> (r: Json)
    ensures
        r is Object && r->Object_0@.len() == 3,
        json_get_str(r, "type"@) == Some("subscribe"@),
        json_get_str(r, "channel"@) == Some("ticker"@),
        json_get(r, "product_ids"@) matches Some(Json::Array(items)) && items@.len()
            == config.symbols@.len() && (forall|i: int|
            0 <= i < items@.len() ==> #[trigger] items@[i] is Str && items@[i]->Str_0@
                == config.symbols@[i]@),
{
    let mut ids: Vec<Json> = Vec::new();
    let mut i: usize = 0;
    while i < config.symbols.len()
        invariant
            i <= config.symbols.len(),
            ids@.len() == i,
            forall|k: int|
                0 <= k < i ==> #[trigger] ids@[k] is Str && ids@[k]->Str_0@ == config.symbols@[k]@,
        decreases config.symbols.len() - i,
    {
        ids.push(Json::Str(config.symbols[i].clone()));
        i = i + 1;
    }
    let mut fields: Vec<(String, Json)> = Vec::new();
    push_field(&mut fields, "channel", Json::string("ticker"));
    push_field(&mut fields, "product_ids", Json::Array(ids));
    push_field(&mut fields, "type", Json::string("subscribe"));
    proof {
        reveal_strlit("channel");
        reveal_strlit("product_ids");
        reveal_strlit("type");
        assert(fields@[0] == fields@.subrange(0, 2)[0]);
        assert(fields@[1] == fields@.subrange(0, 2)[1]);
        assert(fields@.subrange(0, 2)[0] == fields@.subrange(0, 2).subrange(0, 1)[0]);
        assert(fields@[0].0@ == "channel"@);
        assert(fields@[1].0@ == "product_ids"@);
        assert(fields@[0].0@.len() != "product_ids"@.len());
        assert(fields@[0].0@.len() != "type"@.len());
        assert(fields@[1].0@.len() != "type"@.len());
        lemma_find_field_at(fields@, "channel"@, 0);
        lemma_find_field_at(fields@, "product_ids"@, 1);
        lemma_find_field_at(fields@, "type"@, 2);
    }
    Json::Object(fields)
}

/// The Coinbase heartbeat subscription.
pub fn build_coinbase_heartbeat_subscribe_message() -> (r: Json)
    ensures
        r is Object && r->Object_0@.len() == 2,
        json_get_str(r, "type"@) == Some("subscribe"@),
        json_get_str(r, "channel"@) == Some("heartbeats"@),
{
    let mut fields: Vec<(String, Json)> = Vec::new();
    push_field(&mut fields, "channel", Json::string("heartbeats"));
    push_field(&mut fields, "type", Json::string("subscribe"));
    proof {
        reveal_strlit("channel");
        reveal_strlit("type");
        assert(fields@[0] == fields@.subrange(0, 1)[0]);
        assert(fields@[0].0@.len() != "type"@.len());
        lemma_find_field_at(fields@, "channel"@, 0);
        lemma_find_field_at(fields@, "type"@, 1);
    }
    Json::Object(fields)
}

fn buy_side(token_id: &str) -> (r: Json)
    ensures
        json_get_str(r, "token_id"@) == Some(token_id@),
        json_get_str(r, "side"@) == Some("BUY"@),
{
    let mut fields: Vec<(String, Json)> = Vec::new();
    push_field(&mut fields, "side", Json::string("BUY"));
    push_field(&mut fields, "token_id", Json::string(token_id));
    proof {
        reveal_strlit("side");
        reveal_strlit("token_id");
        assert(fields@[0] == fields@.subrange(0, 1)[0]);
        assert(fields@[0].0@.len() != "token_id"@.len());
        lemma_find_field_at(fields@, "side"@, 0);
        lemma_find_field_at(fields@, "token_id"@, 1);
    }
    Json::Object(fields)
}

/// The CLOB prices request: the BUY side of the Up and the Down token.
pub fn build_polymarket_prices_request(up_token_id: &str, down_token_id: &str) -> (r: Json)
    ensures
        r matches Json::Array(items) && items@.len() == 2 && json_get_str(items@[0], "token_id"@)
            == Some(up_token_id@) && json_get_str(items@[0], "side"@) == Some("BUY"@)
            && json_get_str(items@[1], "token_id"@) == Some(down_token_id@) && json_get_str(
            items@[1],
            "side"@,
        ) == Some("BUY"@),
{
    let up = buy_side(up_token_id);
    let down = buy_side(down_token_id);
    let mut items: Vec<Json> = Vec::new();
    items.push(up);
    items.push(down);
    Json::Array(items)
}


/// The tickers of one Advanced Trade event (none when it has no ticker array).
pub open spec fn tickers_of(e: Json) -> Seq<Json> {
    match json_get(e, "tickers"@) {
        Some(Json::Array(ts)) => ts@,
        _ => Seq::empty(),
    }
}

/// The tickers of all events, in order.
pub open spec fn flat_tickers(events: Seq<Json>) -> Seq<Json>
    decreases events.len(),
{
    if events.len() == 0 {
        Seq::empty()
    } else {
        flat_tickers(events.drop_last()) + tickers_of(events.last())
    }
}

/// The time a ticker of the message is stamped with: the message timestamp, or
/// the fallback when the message has none.
pub open spec fn message_time(p: Json, fallback: Json) -> Option<Json> {
    match json_get(p, "timestamp"@) {
        Some(t) => Some(t),
        None => Some(fallback),
    }
}

/// The sequence of a ticker: the message's `sequence_num` when present.
pub open spec fn ticker_sequence(p: Json, t: Json) -> Option<Json> {
    match json_get(p, "sequence_num"@) {
        Some(s) => Some(s),
        None => json_get(t, "sequence"@),
    }
}

/// What normalizing one ticker of an Advanced Trade message gives.
pub open spec fn message_ticker_outcome(p: Json, fallback: Json, t: Json, received_at: int) -> Result<MarketTickView, RealtimeErrorView> {
    ticker_outcome_of(
        json_get(t, "product_id"@),
        message_time(p, fallback),
        json_get(t, "price"@),
        json_get(t, "last_size"@),
        ticker_sequence(p, t),
        received_at,
    )
}

/// The ticks of a list of tickers up to the first one that does not normalize,
/// and that one's error.
pub open spec fn ticker_plan(ts: Seq<Json>, p: Json, fallback: Json, received_at: int) -> (Seq<MarketTickView>, Option<RealtimeErrorView>)
    decreases ts.len(),
{
    if ts.len() == 0 {
        (Seq::empty(), None)
    } else {
        let (done, err) = ticker_plan(ts.drop_last(), p, fallback, received_at);
        if err.is_some() {
            (done, err)
        } else {
            match message_ticker_outcome(p, fallback, ts.last(), received_at) {
                Ok(v) => (done.push(v), None),
                Err(e) => (done, Some(e)),
            }
        }
    }
}

/// Whether a string field equals `name`.
pub open spec fn field_is(p: Json, field: Seq<char>, name: Seq<char>) -> bool {
    json_get_str(p, field) == Some(name)
}

/// Tickers can be stamped: each is an object or `null` (stamping anything else
/// fails).
pub open spec fn tickers_stampable(p: Json) -> bool {
    field_is(p, "channel"@, "ticker"@) ==> match json_get(p, "events"@) {
        Some(Json::Array(evs)) => forall|i: int|
            0 <= i < flat_tickers(evs@).len() ==> (#[trigger] flat_tickers(evs@)[i] is Object
                || flat_tickers(evs@)[i] is Null),
        _ => true,
    }
}

/// The events a Coinbase websocket message yields, the error that stops it,
/// and whether the message was handled.
pub open spec fn coinbase_plan(p: Json, fallback: Json, received_at: int) -> (Seq<RealtimeEventView>, Option<RealtimeErrorView>, bool) {
    if field_is(p, "channel"@, "ticker"@) {
        match json_get(p, "events"@) {
            Some(Json::Array(evs)) => {
                let (ticks, err) = ticker_plan(flat_tickers(evs@), p, fallback, received_at);
                (ticks.map_values(|t: MarketTickView| RealtimeEventView::Tick(t)), err, ticks.len() > 0)
            },
            _ => (Seq::empty(), None, false),
        }
    } else if field_is(p, "channel"@, "heartbeats"@) {
        (seq![RealtimeEventView::SourceHeartbeat("coinbase"@, received_at)], None, true)
    } else if field_is(p, "type"@, "ticker"@) {
        match ticker_outcome(p, received_at) {
            Ok(v) => (seq![RealtimeEventView::Tick(v)], None, true),
            Err(e) => (Seq::empty(), Some(e), true),
        }
    } else if field_is(p, "type"@, "heartbeat"@) {
        (seq![RealtimeEventView::SourceHeartbeat("coinbase"@, received_at)], None, true)
    } else {
        (Seq::empty(), None, false)
    }
}

/// What a Coinbase websocket message yields.
pub struct CoinbaseMessagePlan {
    pub events: Vec<RealtimeEvent>,
    pub failure: Option<RealtimeError>,
    pub handled: bool,
}

/// The views of a list of events.
pub open spec fn events_view(es: Seq<RealtimeEvent>) -> Seq<RealtimeEventView> {
    es.map_values(|e: RealtimeEvent| e@)
}

/// The error's view, if any.
pub open spec fn opt_error_view(e: Option<RealtimeError>) -> Option<RealtimeErrorView> {
    match e {
        Some(x) => Some(x@),
        None => None,
    }
}

fn string_field_is(p: &Json, field: &str, name: &str) -> (r: bool)
    ensures
        r == field_is(*p, field@, name@),
{
    match p.get(field) {
        Some(Json::Str(s)) => {
            let a = chars_of(s.as_str());
            let b = chars_of(name);
            chars_eq(&a, &b)
        },
        _ => false,
    }
}

fn heartbeat_event(received_at: i128) -> (r: RealtimeEvent)
    ensures
        r@ == RealtimeEventView::SourceHeartbeat("coinbase"@, received_at as int),
{
    RealtimeEvent::SourceHeartbeat { source: string_of("coinbase"), received_at }
}

/// Plans the handling of a Coinbase websocket message received at
/// `received_at`; `fallback_time` stamps tickers of a message without a
/// timestamp.
pub fn coinbase_message_plan(payload: &Json, received_at: i128, fallback_time: &Json) -> (r: CoinbaseMessagePlan)
    requires
        tickers_stampable(*payload),
    ensures
        events_view(r.events@) == coinbase_plan(*payload, *fallback_time, received_at as int).0,
        opt_error_view(r.failure) == coinbase_plan(*payload, *fallback_time, received_at as int).1,
        r.failure.is_none() ==> r.handled == coinbase_plan(
            *payload,
            *fallback_time,
            received_at as int,
        ).2,
{
    let mut events: Vec<RealtimeEvent> = Vec::new();
    if string_field_is(payload, "channel", "ticker") {
        let evs = match payload.get("events") {
            Some(Json::Array(evs)) => evs,
            _ => {
                assert(events_view(events@) =~= Seq::<RealtimeEventView>::empty());
                return CoinbaseMessagePlan { events, failure: None, handled: false };
            },
        };
        let time_v: &Json = match payload.get("timestamp") {
            Some(t) => t,
            None => fallback_time,
        };
        let seq_override = payload.get("sequence_num");
        let ghost all = flat_tickers(evs@);
        let mut i: usize = 0;
        while i < evs.len()
            invariant
                i <= evs.len(),
                field_is(*payload, "channel"@, "ticker"@),
                json_get(*payload, "events"@) == Some(Json::Array(*evs)),
                all == flat_tickers(evs@),
                Some(*time_v) == message_time(*payload, *fallback_time),
                opt_json(seq_override) == json_get(*payload, "sequence_num"@),
                ticker_plan(flat_tickers(evs@.subrange(0, i as int)), *payload, *fallback_time, received_at as int).1.is_none(),
                events_view(events@) == ticker_plan(flat_tickers(evs@.subrange(0, i as int)), *payload, *fallback_time, received_at as int).0.map_values(|t: MarketTickView| RealtimeEventView::Tick(t)),
            decreases evs.len() - i,
        {
            let ghost done = flat_tickers(evs@.subrange(0, i as int));
            proof {
                let next = evs@.subrange(0, i + 1);
                assert(next.drop_last() =~= evs@.subrange(0, i as int));
                assert(next.last() == evs@[i as int]);
            }
            match evs[i].get("tickers") {
                Some(Json::Array(ts)) => {
                    let mut j: usize = 0;
                    while j < ts.len()
                        invariant
                            j <= ts.len(),
                            i < evs.len(),
                            field_is(*payload, "channel"@, "ticker"@),
                            json_get(*payload, "events"@) == Some(Json::Array(*evs)),
                            all == flat_tickers(evs@),
                            done == flat_tickers(evs@.subrange(0, i as int)),
                            tickers_of(evs@[i as int]) == ts@,
                            Some(*time_v) == message_time(*payload, *fallback_time),
                            opt_json(seq_override) == json_get(*payload, "sequence_num"@),
                            ticker_plan(done + ts@.subrange(0, j as int), *payload, *fallback_time, received_at as int).1.is_none(),
                            events_view(events@) == ticker_plan(done + ts@.subrange(0, j as int), *payload, *fallback_time, received_at as int).0.map_values(|t: MarketTickView| RealtimeEventView::Tick(t)),
                        decreases ts.len() - j,
                    {
                        let t = &ts[j];
                        let seq_v = match seq_override {
                            Some(s) => Some(s),
                            None => t.get("sequence"),
                        };
                        let outcome = normalize_ticker_fields(
                            t.get("product_id"),
                            Some(time_v),
                            t.get("price"),
                            t.get("last_size"),
                            seq_v,
                            received_at,
                        );
                        let ghost prefix = done + ts@.subrange(0, j as int);
                        let ghost next = done + ts@.subrange(0, j + 1);
                        assert(next.drop_last() =~= prefix);
                        assert(next.last() == ts@[j as int]);
                        match outcome {
                            Ok(tick) => {
                                let ghost before = events_view(events@);
                                events.push(RealtimeEvent::Tick(tick));
                                assert(events_view(events@) =~= before.push(RealtimeEventView::Tick(tick@)));
                                j = j + 1;
                                assert(events_view(events@) =~= ticker_plan(done + ts@.subrange(0, j as int), *payload, *fallback_time, received_at as int).0.map_values(|t: MarketTickView| RealtimeEventView::Tick(t)));
                            },
                            Err(e) => {
                                proof {
                                    let pre = done + ts@.subrange(0, j + 1);
                                    let rest = ts@.subrange(j + 1, ts@.len() as int) + flat_tickers(
                                        evs@.subrange(i + 1, evs@.len() as int),
                                    );
                                    lemma_ticker_plan_stops(pre, rest, *payload, *fallback_time, received_at as int);
                                    lemma_flat_split(evs@, i + 1);
                                    let upto = evs@.subrange(0, i + 1);
                                    assert(upto.drop_last() =~= evs@.subrange(0, i as int));
                                    assert(upto.last() == evs@[i as int]);
                                    assert(flat_tickers(upto) == done + ts@);
                                    assert(ts@ =~= ts@.subrange(0, j + 1) + ts@.subrange(j + 1, ts@.len() as int));
                                    assert(all =~= pre + rest);
                                }
                                return CoinbaseMessagePlan { events, failure: Some(e), handled: true };
                            },
                        }
                    }
                    assert(ts@.subrange(0, ts@.len() as int) =~= ts@);
                },
                _ => {
                    assert(tickers_of(evs@[i as int]) =~= Seq::<Json>::empty());
                    assert(done + tickers_of(evs@[i as int]) =~= done);
                },
            }
            i = i + 1;
        }
        assert(evs@.subrange(0, evs@.len() as int) =~= evs@);
        let handled = events.len() > 0;
        return CoinbaseMessagePlan { events, failure: None, handled };
    }
    if string_field_is(payload, "channel", "heartbeats") {
        events.push(heartbeat_event(received_at));
        assert(events_view(events@) =~= seq![RealtimeEventView::SourceHeartbeat("coinbase"@, received_at as int)]);
        return CoinbaseMessagePlan { events, failure: None, handled: true };
    }
    if string_field_is(payload, "type", "ticker") {
        match normalize_coinbase_ticker(payload, received_at) {
            Ok(tick) => {
                events.push(RealtimeEvent::Tick(tick));
                assert(events_view(events@) =~= seq![RealtimeEventView::Tick(tick@)]);
                return CoinbaseMessagePlan { events, failure: None, handled: true };
            },
            Err(e) => {
                assert(events_view(events@) =~= Seq::<RealtimeEventView>::empty());
                return CoinbaseMessagePlan { events, failure: Some(e), handled: true };
            },
        }
    }
    if string_field_is(payload, "type", "heartbeat") {
        events.push(heartbeat_event(received_at));
        assert(events_view(events@) =~= seq![RealtimeEventView::SourceHeartbeat("coinbase"@, received_at as int)]);
        return CoinbaseMessagePlan { events, failure: None, handled: true };
    }
    assert(events_view(events@) =~= Seq::<RealtimeEventView>::empty());
    CoinbaseMessagePlan { events, failure: None, handled: false }
}

/// Once a prefix of the tickers fails, every extension fails the same way.
proof fn lemma_ticker_plan_stops(prefix: Seq<Json>, rest: Seq<Json>, p: Json, fallback: Json, received_at: int)
    requires
        ticker_plan(prefix, p, fallback, received_at).1.is_some(),
    ensures
        ticker_plan(prefix + rest, p, fallback, received_at) == ticker_plan(prefix, p, fallback, received_at),
    decreases rest.len(),
{
    if rest.len() == 0 {
        assert(prefix + rest =~= prefix);
    } else {
        lemma_ticker_plan_stops(prefix, rest.drop_last(), p, fallback, received_at);
        assert((prefix + rest).drop_last() =~= prefix + rest.drop_last());
    }
}

/// The tickers of a list of events split at any index.
proof fn lemma_flat_split(evs: Seq<Json>, i: int)
    requires
        0 <= i <= evs.len(),
    ensures
        flat_tickers(evs) == flat_tickers(evs.subrange(0, i)) + flat_tickers(
            evs.subrange(i, evs.len() as int),
        ),
    decreases evs.len(),
{
    if i == evs.len() {
        assert(evs.subrange(0, i) =~= evs);
        assert(evs.subrange(i, evs.len() as int) =~= Seq::<Json>::empty());
        assert(flat_tickers(evs) + Seq::<Json>::empty() =~= flat_tickers(evs));
    } else {
        lemma_flat_split(evs.drop_last(), i);
        assert(evs.drop_last().subrange(0, i) =~= evs.subrange(0, i));
        let tail = evs.subrange(i, evs.len() as int);
        assert(tail.drop_last() =~= evs.drop_last().subrange(i, evs.len() - 1));
        assert(tail.last() == evs.last());
        assert(flat_tickers(evs.subrange(0, i)) + (flat_tickers(tail.drop_last()) + tickers_of(
            tail.last(),
        )) =~= (flat_tickers(evs.subrange(0, i)) + flat_tickers(tail.drop_last())) + tickers_of(
            evs.last(),
        ));
    }
}

/// Every ticker is an object or `null`.
pub open spec fn all_stampable(ts: Seq<Json>) -> bool {
    forall|k: int| 0 <= k < ts.len() ==> (#[trigger] ts[k] is Object || ts[k] is Null)
}

/// Whether the tickers of a message can be stamped (see `tickers_stampable`).
pub fn tickers_can_be_stamped(payload: &Json) -> (r: bool)
    ensures
        r == tickers_stampable(*payload),
{
    if !string_field_is(payload, "channel", "ticker") {
        return true;
    }
    let evs = match payload.get("events") {
        Some(Json::Array(evs)) => evs,
        _ => {
            return true;
        },
    };
    let mut i: usize = 0;
    while i < evs.len()
        invariant
            i <= evs.len(),
            json_get(*payload, "events"@) == Some(Json::Array(*evs)),
            field_is(*payload, "channel"@, "ticker"@),
            all_stampable(flat_tickers(evs@.subrange(0, i as int))),
        decreases evs.len() - i,
    {
        let ghost before = flat_tickers(evs@.subrange(0, i as int));
        proof {
            assert(evs@.subrange(0, i + 1).drop_last() =~= evs@.subrange(0, i as int));
            assert(evs@.subrange(0, i + 1).last() == evs@[i as int]);
            assert(flat_tickers(evs@.subrange(0, i + 1)) == before + tickers_of(evs@[i as int]));
        }
        match evs[i].get("tickers") {
            Some(Json::Array(ts)) => {
                proof {
                    assert(tickers_of(evs@[i as int]) == ts@);
                }
                let mut j: usize = 0;
                while j < ts.len()
                    invariant
                        j <= ts.len(),
                        i < evs.len(),
                        json_get(*payload, "events"@) == Some(Json::Array(*evs)),
                        field_is(*payload, "channel"@, "ticker"@),
                        before == flat_tickers(evs@.subrange(0, i as int)),
                        all_stampable(before),
                        flat_tickers(evs@.subrange(0, i + 1)) == before + ts@,
                        forall|k: int| 0 <= k < j ==> (#[trigger] ts@[k] is Object || ts@[k] is Null),
                    decreases ts.len() - j,
                {
                    match &ts[j] {
                        Json::Object(_) | Json::Null => {},
                        _ => {
                            proof {
                                lemma_flat_split(evs@, i + 1);
                                let k = before.len() + j;
                                assert(flat_tickers(evs@)[k] == ts@[j as int]);
                                assert(!(flat_tickers(evs@)[k] is Object || flat_tickers(evs@)[k] is Null));
                            }
                            return false;
                        },
                    }
                    j = j + 1;
                }
                proof {
                    let all = before + ts@;
                    assert forall|k: int| 0 <= k < all.len() implies (#[trigger] all[k] is Object
                        || all[k] is Null) by {
                        if k >= before.len() {
                            assert(all[k] == ts@[k - before.len()]);
                        }
                    }
                }
            },
            _ => {
                proof {
                    assert(tickers_of(evs@[i as int]) =~= Seq::<Json>::empty());
                    assert(before + Seq::<Json>::empty() =~= before);
                }
            },
        }
        i = i + 1;
    }
    proof {
        assert(evs@.subrange(0, evs.len() as int) =~= evs@);
    }
    true
}

/// Handles a Coinbase websocket message: publishes the events it yields, in
/// order, and reports whether the message was handled. A message that yields
/// an error is reported as that error after its earlier events are published;
/// one that yields no event is answered without the sink.
pub fn handle_coinbase_ws_message<S: CollectorEventSink>(
    ingress: &CollectorIngress<S>,
    payload: &Json,
    received_at: i128,
    fallback_time: &Json,
) -> (r: Result<bool, RealtimeError>)
    requires
        tickers_stampable(*payload),
    ensures
        r is Ok ==> coinbase_plan(*payload, *fallback_time, received_at as int).1 is None
            && r->Ok_0 == coinbase_plan(*payload, *fallback_time, received_at as int).2,
        coinbase_plan(*payload, *fallback_time, received_at as int).1 is Some ==> r is Err,
        coinbase_plan(*payload, *fallback_time, received_at as int).0.len() == 0 ==> match coinbase_plan(
            *payload,
            *fallback_time,
            received_at as int,
        ).1 {
            None => r == Ok::<bool, RealtimeError>(coinbase_plan(*payload, *fallback_time, received_at as int).2),
            Some(e) => (r matches Err(err) && err@ == e),
        },
{
    let plan = coinbase_message_plan(payload, received_at, fallback_time);
    let CoinbaseMessagePlan { events, failure, handled } = plan;
    let ghost planned = coinbase_plan(*payload, *fallback_time, received_at as int);
    assert(events@.len() == planned.0.len());
    let mut rest = events;
    while rest.len() > 0
        invariant
            planned == coinbase_plan(*payload, *fallback_time, received_at as int),
            planned.0.len() == 0 ==> rest.len() == 0,
        decreases rest.len(),
    {
        let event = rest.remove(0);
        match ingress.sink.try_publish(event) {
            Ok(()) => {},
            Err(e) => return Err(e),
        }
    }
    match failure {
        Some(e) => Err(e),
        None => Ok(handled),
    }
}


/// Name for what `serde_json::from_str::<Vec<String>>` gives for a text: the
/// strings, or the error's message.
pub uninterp spec fn json_string_array(text: Seq<char>) -> Result<Seq<Seq<char>>, Seq<char>>;

/// `serde_json::from_str::<Vec<String>>`, with the error as its message.
#[verifier::external_body]
fn parse_json_string_array(text: &str) -> (r: Result<Vec<String>, String>)
    ensures
        match json_string_array(text@) {
            Ok(items) => r is Ok && r->Ok_0@.len() == items.len() && (forall|i: int|
                0 <= i < items.len() ==> #[trigger] r->Ok_0@[i]@ == items[i]),
            Err(m) => r is Err && r->Err_0@ == m,
        },
{
    match serde_json::from_str::<Vec<String>>(text) {
        Ok(items) => Ok(items),
        Err(e) => Err(e.to_string()),
    }
}

/// Every item is a JSON string.
pub open spec fn all_strings(items: Seq<Json>) -> bool {
    forall|i: int| 0 <= i < items.len() ==> #[trigger] items[i] is Str
}

/// A list of strings at `field`: a JSON text of a string array, or an array of
/// strings.
pub open spec fn string_array_of(v: Option<Json>, field: Seq<char>) -> Result<Seq<Seq<char>>, CollectorErrorView> {
    match v {
        Some(Json::Str(raw)) => match json_string_array(raw@) {
            Ok(items) => Ok(items),
            Err(m) => Err(CollectorErrorView::PolymarketJsonField(field, m)),
        },
        Some(Json::Array(items)) => if all_strings(items@) {
            Ok(items@.map_values(|j: Json| j->Str_0@))
        } else {
            Err(CollectorErrorView::PolymarketJsonField(field, "array item is not a string"@))
        },
        Some(other) => Err(
            CollectorErrorView::PolymarketJsonField(
                field,
                "expected JSON string array, got "@ + json_text(other),
            ),
        ),
        None => Err(CollectorErrorView::PolymarketJsonField(field, "missing field"@)),
    }
}

/// Reads a list of strings.
fn parse_polymarket_string_array(value: Option<&Json>, field: &'static str) -> (r: Result<Vec<String>, CollectorRunError>)
    ensures
        match string_array_of(opt_json(value), field@) {
            Ok(items) => r is Ok && r->Ok_0@.len() == items.len() && (forall|i: int|
                0 <= i < items.len() ==> #[trigger] r->Ok_0@[i]@ == items[i]),
            Err(e) => r is Err && r->Err_0@ == e,
        },
{
    match value {
        Some(Json::Str(raw)) => match parse_json_string_array(raw.as_str()) {
            Ok(items) => Ok(items),
            Err(m) => Err(CollectorRunError::PolymarketJsonField { field, error: m }),
        },
        Some(Json::Array(items)) => {
            let mut out: Vec<String> = Vec::new();
            let mut i: usize = 0;
            while i < items.len()
                invariant
                    opt_json(value) == Some(Json::Array(*items)),
                    i <= items.len(),
                    out@.len() == i,
                    forall|k: int| 0 <= k < i ==> #[trigger] items@[k] is Str && out@[k]@ == items@[k]->Str_0@,
                decreases items.len() - i,
            {
                match &items[i] {
                    Json::Str(s) => out.push(s.clone()),
                    _ => {
                        assert(!(items@[i as int] is Str));
                        assert(!all_strings(items@));
                        return Err(CollectorRunError::PolymarketJsonField {
                            field,
                            error: string_of("array item is not a string"),
                        });
                    },
                }
                i = i + 1;
            }
            Ok(out)
        },
        Some(other) => {
            let mut m = string_of("expected JSON string array, got ");
            other.write_text(&mut m);
            Err(CollectorRunError::PolymarketJsonField { field, error: m })
        },
        None => Err(CollectorRunError::PolymarketJsonField { field, error: string_of("missing field") }),
    }
}

/// The index of the first text equal to `expected` ignoring ASCII case.
pub open spec fn first_match(items: Seq<Seq<char>>, expected: Seq<char>) -> Option<int>
    decreases items.len(),
{
    if items.len() == 0 {
        None
    } else {
        match first_match(items.drop_last(), expected) {
            Some(i) => Some(i),
            None => if ascii_lowercase(items.last()) == ascii_lowercase(expected) {
                Some(items.len() - 1)
            } else {
                None
            },
        }
    }
}

/// The index of the outcome named `expected`, ignoring ASCII case.
fn outcome_index(outcomes: &Vec<String>, expected: &str) -> (r: Result<usize, CollectorRunError>)
    ensures
        match first_match(texts(outcomes@), expected@) {
            Some(i) => r is Ok && r->Ok_0 == i,
            None => r is Err && r->Err_0@ == CollectorErrorView::PolymarketMetadata(
                "missing "@ + expected@ + " outcome"@,
            ),
        },
{
    let ghost items = texts(outcomes@);
    let target = to_ascii_lowercase(expected);
    let tc = chars_of(target.as_str());
    let mut i: usize = 0;
    while i < outcomes.len()
        invariant
            i <= outcomes.len(),
            items == texts(outcomes@),
            tc@ == ascii_lowercase(expected@),
            first_match(items.subrange(0, i as int), expected@).is_none(),
        decreases outcomes.len() - i,
    {
        let l = to_ascii_lowercase(outcomes[i].as_str());
        let lc = chars_of(l.as_str());
        let ghost next = items.subrange(0, i + 1);
        assert(next.drop_last() =~= items.subrange(0, i as int));
        assert(next.last() == outcomes@[i as int]@);
        if chars_eq(&lc, &tc) {
            proof {
                lemma_first_match_prefix(items, expected@, i + 1);
            }
            return Ok(i);
        }
        i = i + 1;
    }
    assert(items.subrange(0, items.len() as int) =~= items);
    let mut m = string_of("missing ");
    crate::text::push_str(&mut m, expected);
    crate::text::push_str(&mut m, " outcome");
    Err(CollectorRunError::PolymarketMetadata(m))
}

/// A match in a prefix is the first match of the whole list.
proof fn lemma_first_match_prefix(items: Seq<Seq<char>>, expected: Seq<char>, n: int)
    requires
        0 <= n <= items.len(),
        first_match(items.subrange(0, n), expected).is_some(),
    ensures
        first_match(items, expected) == first_match(items.subrange(0, n), expected),
    decreases items.len() - n,
{
    if n < items.len() {
        let next = items.subrange(0, n + 1);
        assert(next.drop_last() =~= items.subrange(0, n));
        lemma_first_match_prefix(items, expected, n + 1);
    } else {
        assert(items.subrange(0, n) =~= items);
    }
}

/// A field as text: a non-empty string, or a number's text.
pub open spec fn stringify_of(v: Option<Json>) -> Option<Seq<char>> {
    match v {
        Some(Json::Str(s)) => if s@.len() > 0 {
            Some(s@)
        } else {
            None
        },
        Some(Json::Number(n)) => Some(n.text@),
        _ => None,
    }
}

/// A field as a boolean.
pub open spec fn bool_of(v: Option<Json>) -> Option<bool> {
    match v {
        Some(Json::Bool(b)) => Some(b),
        _ => None,
    }
}

fn stringify_optional_field(value: Option<&Json>) -> (r: Option<String>)
    ensures
        opt_text(r) == stringify_of(opt_json(value)),
{
    match value {
        Some(Json::Str(s)) => if s.as_str().unicode_len() > 0 {
            Some(s.clone())
        } else {
            None
        },
        Some(Json::Number(n)) => Some(n.text.clone()),
        _ => None,
    }
}

/// The first market whose slug is `slug`.
pub open spec fn first_market(markets: Seq<Json>, slug: Seq<char>) -> Option<Json>
    decreases markets.len(),
{
    if markets.len() == 0 {
        None
    } else if json_get_str(markets[0], "slug"@) == Some(slug) {
        Some(markets[0])
    } else {
        first_market(markets.subrange(1, markets.len() as int), slug)
    }
}

/// The item at `i`, if any.
pub open spec fn item_at(items: Seq<Seq<char>>, i: int) -> Option<Seq<char>> {
    if 0 <= i < items.len() {
        Some(items[i])
    } else {
        None
    }
}

/// What extracting the Up/Down market `slug` from a Gamma event gives.
pub open spec fn extract_outcome(market_key: MarketKey, slug: Seq<char>, event: Json) -> Result<MetadataView, CollectorErrorView> {
    match json_get(event, "markets"@) {
        Some(Json::Array(ms)) => match first_market(ms@, slug) {
            None => Err(CollectorErrorView::PolymarketMetadata("missing market slug "@ + slug)),
            Some(m) => match string_array_of(json_get(m, "outcomes"@), "outcomes"@) {
                Err(e) => Err(e),
                Ok(outcomes) => match string_array_of(json_get(m, "clobTokenIds"@), "clobTokenIds"@) {
                    Err(e) => Err(e),
                    Ok(tokens) => {
                        let fallback = match string_array_of(json_get(m, "outcomePrices"@), "outcomePrices"@) {
                            Ok(v) => v,
                            Err(_) => Seq::empty(),
                        };
                        match first_match(outcomes, "up"@) {
                            None => Err(CollectorErrorView::PolymarketMetadata("missing "@ + "up"@ + " outcome"@)),
                            Some(ui) => match first_match(outcomes, "down"@) {
                                None => Err(CollectorErrorView::PolymarketMetadata("missing "@ + "down"@ + " outcome"@)),
                                Some(di) => if ui >= tokens.len() {
                                    Err(CollectorErrorView::PolymarketMetadata("missing Up token"@))
                                } else if di >= tokens.len() {
                                    Err(CollectorErrorView::PolymarketMetadata("missing Down token"@))
                                } else {
                                    Ok(
                                        MetadataView {
                                            market_key,
                                            event_slug: slug,
                                            up_token_id: tokens[ui],
                                            down_token_id: tokens[di],
                                            fallback_up_price: item_at(fallback, ui),
                                            fallback_down_price: item_at(fallback, di),
                                            liquidity: stringify_of(json_get(m, "liquidity"@)),
                                            spread: stringify_of(json_get(m, "spread"@)),
                                            accepting_orders: bool_of(json_get(m, "acceptingOrders"@)),
                                            closed: bool_of(json_get(m, "closed"@)),
                                        },
                                    )
                                },
                            },
                        }
                    },
                },
            },
        },
        _ => Err(CollectorErrorView::PolymarketMetadata("missing markets"@)),
    }
}

fn item_at_exec(items: &Vec<String>, i: usize) -> (r: Option<String>)
    ensures
        opt_text(r) == item_at(texts(items@), i as int),
{
    if i < items.len() {
        Some(items[i].clone())
    } else {
        None
    }
}

fn find_market_index(markets: &Vec<Json>, event_slug: &str) -> (r: Option<usize>)
    ensures
        match first_market(markets@, event_slug@) {
            Some(m) => r.is_some() && r.unwrap() < markets.len() && markets@[r.unwrap() as int] == m,
            None => r.is_none(),
        },
{
    let mut idx: usize = 0;
    assert(markets@.subrange(0, markets@.len() as int) =~= markets@);
    while idx < markets.len()
        invariant
            idx <= markets.len(),
            first_market(markets@, event_slug@) == first_market(
                markets@.subrange(idx as int, markets@.len() as int),
                event_slug@,
            ),
        decreases markets.len() - idx,
    {
        let ghost rest = markets@.subrange(idx as int, markets@.len() as int);
        assert(rest[0] == markets@[idx as int]);
        if string_field_is(&markets[idx], "slug", event_slug) {
            return Some(idx);
        }
        assert(rest.subrange(1, rest.len() as int) =~= markets@.subrange(idx + 1, markets@.len() as int));
        idx = idx + 1;
    }
    None
}

/// Extracts the token ids and fallback prices of the market `event_slug` from
/// a Gamma event.
pub fn extract_polymarket_market(market_key: MarketKey, event_slug: &str, event: &Json) -> (r: Result<PolymarketMarketMetadata, CollectorRunError>)
    ensures
        match extract_outcome(market_key, event_slug@, *event) {
            Ok(v) => r is Ok && r->Ok_0@ == v,
            Err(e) => r is Err && r->Err_0@ == e,
        },
{
    let markets = match event.get("markets") {
        Some(Json::Array(ms)) => ms,
        _ => return Err(CollectorRunError::PolymarketMetadata(string_of("missing markets"))),
    };
    let found = find_market_index(markets, event_slug);
    let market = match found {
        Some(k) => &markets[k],
        None => {
            let mut m = string_of("missing market slug ");
            crate::text::push_str(&mut m, event_slug);
            return Err(CollectorRunError::PolymarketMetadata(m));
        },
    };
    assert(first_market(markets@, event_slug@) == Some(*market));
    assert(json_get(*event, "markets"@) == Some(Json::Array(*markets)));
    let outcomes = match parse_polymarket_string_array(market.get("outcomes"), "outcomes") {
        Ok(v) => v,
        Err(e) => return Err(e),
    };
    let token_ids = match parse_polymarket_string_array(market.get("clobTokenIds"), "clobTokenIds") {
        Ok(v) => v,
        Err(e) => return Err(e),
    };
    let fallback_prices = match parse_polymarket_string_array(market.get("outcomePrices"), "outcomePrices") {
        Ok(v) => v,
        Err(_) => Vec::new(),
    };
    let ghost ov = texts(outcomes@);
    let ghost tv = texts(token_ids@);
    let ghost fv = texts(fallback_prices@);
    assert(ov =~= string_array_of(json_get(*market, "outcomes"@), "outcomes"@)->Ok_0);
    assert(tv =~= string_array_of(json_get(*market, "clobTokenIds"@), "clobTokenIds"@)->Ok_0);
    assert(fv =~= (match string_array_of(json_get(*market, "outcomePrices"@), "outcomePrices"@) {
        Ok(v) => v,
        Err(_) => Seq::<Seq<char>>::empty(),
    }));
    let up_idx = match outcome_index(&outcomes, "up") {
        Ok(i) => i,
        Err(e) => return Err(e),
    };
    let down_idx = match outcome_index(&outcomes, "down") {
        Ok(i) => i,
        Err(e) => return Err(e),
    };
    assert(first_match(ov, "up"@) == Some(up_idx as int));
    assert(first_match(ov, "down"@) == Some(down_idx as int));
    assert(tv.len() == token_ids.len());
    if up_idx >= token_ids.len() {
        return Err(CollectorRunError::PolymarketMetadata(string_of("missing Up token")));
    }
    if down_idx >= token_ids.len() {
        return Err(CollectorRunError::PolymarketMetadata(string_of("missing Down token")));
    }
    let meta = PolymarketMarketMetadata {
        market_key,
        event_slug: string_of(event_slug),
        up_token_id: token_ids[up_idx].clone(),
        down_token_id: token_ids[down_idx].clone(),
        fallback_up_price: item_at_exec(&fallback_prices, up_idx),
        fallback_down_price: item_at_exec(&fallback_prices, down_idx),
        liquidity: stringify_optional_field(market.get("liquidity")),
        spread: stringify_optional_field(market.get("spread")),
        accepting_orders: match market.get("acceptingOrders") {
            Some(v) => v.as_bool(),
            None => None,
        },
        closed: match market.get("closed") {
            Some(v) => v.as_bool(),
            None => None,
        },
    };
    Ok(meta)
}

/// The CLOB BUY price of a token: `prices[token]["BUY"]` as text.
pub open spec fn clob_price_of(prices: Json, token: Seq<char>) -> Option<Seq<char>> {
    match json_get(prices, token) {
        Some(entry) => stringify_of(json_get(entry, "BUY"@)),
        None => None,
    }
}

fn clob_price_for_token(prices: &Json, token_id: &str) -> (r: Option<String>)
    ensures
        opt_text(r) == clob_price_of(*prices, token_id@),
{
    match prices.get(token_id) {
        Some(entry) => stringify_optional_field(entry.get("BUY")),
        None => None,
    }
}

/// The CLOB price when there is one, else the fallback.
pub open spec fn price_or(clob: Option<Seq<char>>, fallback: Option<Seq<char>>) -> Option<Seq<char>> {
    match clob {
        Some(p) => Some(p),
        None => fallback,
    }
}

/// An optional string field: present only when there is a value.
pub open spec fn optional_field_is(r: Json, key: Seq<char>, v: Option<Seq<char>>) -> bool {
    match v {
        Some(t) => json_get_str(r, key) == Some(t),
        None => json_get(r, key) is None,
    }
}

fn push_optional(fields: &mut Vec<(String, Json)>, key: &str, value: &Option<String>)
    ensures
        forall|k: Seq<char>|
            #[trigger] find_field(final(fields)@, k) == (match find_field(old(fields)@, k) {
                Some(v) => Some(v),
                None => if k == key@ && value.is_some() {
                    Some(Json::Str(value.unwrap()))
                } else {
                    None
                },
            }),
{
    match value {
        Some(v) => push_field(fields, key, Json::Str(v.clone())),
        None => {},
    }
}

/// The snapshot payload of a market: its ids and flags, the CLOB prices (or the
/// Gamma fallbacks), liquidity and spread.
pub fn merge_polymarket_snapshot_payload(market: &PolymarketMarketMetadata, clob_prices: &Json) -> (r: Result<Json, CollectorRunError>)
    ensures
        r is Ok,
        json_get_str(r->Ok_0, "market_key"@) == Some(market.market_key.name()),
        json_get_str(r->Ok_0, "event_slug"@) == Some(market.event_slug@),
        json_get_str(r->Ok_0, "up_token_id"@) == Some(market.up_token_id@),
        json_get_str(r->Ok_0, "down_token_id"@) == Some(market.down_token_id@),
        json_get(r->Ok_0, "accepting_orders"@) == Some(
            match market.accepting_orders {
                Some(b) => Json::Bool(b),
                None => Json::Null,
            },
        ),
        json_get(r->Ok_0, "closed"@) == Some(
            match market.closed {
                Some(b) => Json::Bool(b),
                None => Json::Null,
            },
        ),
        optional_field_is(
            r->Ok_0,
            "up_price"@,
            price_or(clob_price_of(*clob_prices, market.up_token_id@), opt_text(market.fallback_up_price)),
        ),
        optional_field_is(
            r->Ok_0,
            "down_price"@,
            price_or(clob_price_of(*clob_prices, market.down_token_id@), opt_text(market.fallback_down_price)),
        ),
        optional_field_is(r->Ok_0, "liquidity"@, opt_text(market.liquidity)),
        optional_field_is(r->Ok_0, "spread"@, opt_text(market.spread)),
{
    let up_price = match clob_price_for_token(clob_prices, market.up_token_id.as_str()) {
        Some(p) => Some(p),
        None => match &market.fallback_up_price {
            Some(p) => Some(p.clone()),
            None => None,
        },
    };
    let down_price = match clob_price_for_token(clob_prices, market.down_token_id.as_str()) {
        Some(p) => Some(p),
        None => match &market.fallback_down_price {
            Some(p) => Some(p.clone()),
            None => None,
        },
    };
    proof {
        reveal_strlit("accepting_orders");
        reveal_strlit("closed");
        reveal_strlit("down_price");
        reveal_strlit("down_token_id");
        reveal_strlit("event_slug");
        reveal_strlit("liquidity");
        reveal_strlit("market_key");
        reveal_strlit("spread");
        reveal_strlit("up_price");
        reveal_strlit("up_token_id");
        assert("accepting_orders"@.len() == 16 && "accepting_orders"@[0] == 'a');
        assert("closed"@.len() == 6 && "closed"@[0] == 'c');
        assert("down_price"@.len() == 10 && "down_price"@[0] == 'd');
        assert("down_token_id"@.len() == 13 && "down_token_id"@[0] == 'd');
        assert("event_slug"@.len() == 10 && "event_slug"@[0] == 'e');
        assert("liquidity"@.len() == 9 && "liquidity"@[0] == 'l');
        assert("market_key"@.len() == 10 && "market_key"@[0] == 'm');
        assert("spread"@.len() == 6 && "spread"@[0] == 's');
        assert("up_price"@.len() == 8 && "up_price"@[0] == 'u');
        assert("up_token_id"@.len() == 11 && "up_token_id"@[0] == 'u');
    }
    let mut fields: Vec<(String, Json)> = Vec::new();
    push_field(&mut fields, "accepting_orders", Json::optional_bool(market.accepting_orders));
    push_field(&mut fields, "closed", Json::optional_bool(market.closed));
    push_optional(&mut fields, "down_price", &down_price);
    push_field(&mut fields, "down_token_id", Json::Str(market.down_token_id.clone()));
    push_field(&mut fields, "event_slug", Json::Str(market.event_slug.clone()));
    push_optional(&mut fields, "liquidity", &market.liquidity);
    push_field(&mut fields, "market_key", Json::string(market.market_key.as_str()));
    push_optional(&mut fields, "spread", &market.spread);
    push_optional(&mut fields, "up_price", &up_price);
    push_field(&mut fields, "up_token_id", Json::Str(market.up_token_id.clone()));
    Ok(Json::Object(fields))
}

/// Whether `s` begins with `p`.
pub open spec fn has_prefix(s: Seq<char>, p: Seq<char>) -> bool {
    p.len() <= s.len() && s.subrange(0, p.len() as int) == p
}

/// Whether the characters `cs` begin with `p`.
fn chars_start_with(cs: &Vec<char>, p: &str) -> (r: bool)
    ensures
        r == has_prefix(cs@, p@),
{
    let pc = chars_of(p);
    if pc.len() > cs.len() {
        return false;
    }
    let mut i: usize = 0;
    while i < pc.len()
        invariant
            pc@ == p@,
            pc.len() <= cs.len(),
            i <= pc.len(),
            forall|k: int| 0 <= k < i ==> cs@[k] == pc@[k],
        decreases pc.len() - i,
    {
        if cs[i] != pc[i] {
            assert(cs@.subrange(0, pc@.len() as int)[i as int] != p@[i as int]);
            return false;
        }
        i = i + 1;
    }
    assert(cs@.subrange(0, pc@.len() as int) =~= p@);
    true
}

/// The last position of `c` in `s`.
pub open spec fn last_index_of(s: Seq<char>, c: char) -> Option<int>
    decreases s.len(),
{
    if s.len() == 0 {
        None
    } else if s.last() == c {
        Some(s.len() - 1)
    } else {
        last_index_of(s.drop_last(), c)
    }
}

proof fn lemma_last_index_bounds(s: Seq<char>, c: char)
    ensures
        last_index_of(s, c) matches Some(i) ==> 0 <= i < s.len() && s[i] == c,
        last_index_of(s, c) is None ==> forall|k: int| 0 <= k < s.len() ==> s[k] != c,
    decreases s.len(),
{
    if s.len() > 0 && s.last() != c {
        lemma_last_index_bounds(s.drop_last(), c);
        assert forall|k: int| 0 <= k < s.drop_last().len() implies s.drop_last()[k] == s[k] by {}
    }
}

/// "wss://".
pub open spec fn wss_prefix() -> Seq<char> {
    seq!['w', 's', 's', ':', '/', '/']
}

/// The host and port a `wss://` endpoint names: the text up to the first '/'
/// after the scheme, split at its last ':' into host and port (443 without a
/// port).
pub open spec fn host_port_of(endpoint: Seq<char>) -> Result<(Seq<char>, u16), Seq<char>> {
    if !has_prefix(endpoint, wss_prefix()) {
        Err("only wss endpoints are supported"@)
    } else {
        let rest = endpoint.subrange(6, endpoint.len() as int);
        let host_port = match crate::text::find_sub(rest, seq!['/']) {
            Some(j) => rest.subrange(0, j),
            None => rest,
        };
        match last_index_of(host_port, ':') {
            Some(k) => match crate::text::parse_u16(host_port.subrange(k + 1, host_port.len() as int)) {
                Some(port) => Ok((host_port.subrange(0, k), port)),
                None => Err("invalid websocket port"@),
            },
            None => Ok((host_port, 443u16)),
        }
    }
}

/// The host and port of a `wss://` endpoint, for a CONNECT through a proxy.
pub fn websocket_host_port(endpoint: &str) -> (r: Result<(String, u16), &'static str>)
    ensures
        match host_port_of(endpoint@) {
            Ok((host, port)) => r matches Ok((h, p)) && h@ == host && p == port,
            Err(e) => r matches Err(m) && m@ == e,
        },
{
    let cs = chars_of(endpoint);
    proof {
        reveal_strlit("wss://");
        assert("wss://"@ =~= wss_prefix());
    }
    if !chars_start_with(&cs, "wss://") {
        return Err("only wss endpoints are supported");
    }
    let rest = crate::text::string_from_chars(&cs, 6, cs.len());
    let rest_cs = chars_of(rest.as_str());
    let slash = vec!['/'];
    assert(slash@ =~= seq!['/']);
    proof {
        crate::text::lemma_find_from_bounds(rest_cs@, seq!['/'], 0);
    }
    let host_port = match crate::text::find_chars(&rest_cs, &slash) {
        Some(j) => crate::text::string_from_chars(&rest_cs, 0, j),
        None => rest,
    };
    let hp = chars_of(host_port.as_str());
    let mut k: usize = hp.len();
    assert(hp@.subrange(0, k as int) =~= hp@);
    while k > 0 && hp[k - 1] != ':'
        invariant
            k <= hp.len(),
            last_index_of(hp@, ':') == last_index_of(hp@.subrange(0, k as int), ':'),
        decreases k,
    {
        let ghost t = hp@.subrange(0, k as int);
        assert(t.drop_last() =~= hp@.subrange(0, k - 1));
        k = k - 1;
    }
    proof {
        lemma_last_index_bounds(hp@, ':');
    }
    if k == 0 {
        assert(hp@.subrange(0, 0) =~= Seq::<char>::empty());
        return Ok((host_port, 443));
    }
    assert(last_index_of(hp@.subrange(0, k as int), ':') == Some(k - 1));
    let port_text = crate::text::string_from_chars(&hp, k, hp.len());
    match crate::text::parse_u16_str(port_text.as_str()) {
        Some(port) => Ok((crate::text::string_from_chars(&hp, 0, k - 1), port)),
        None => Err("invalid websocket port"),
    }
}

/// A proxy setting without its "http://" or "https://" scheme.
pub open spec fn proxy_address_of(proxy: Seq<char>) -> Seq<char> {
    if has_prefix(proxy, "http://"@) {
        proxy.subrange(7, proxy.len() as int)
    } else if has_prefix(proxy, "https://"@) {
        proxy.subrange(8, proxy.len() as int)
    } else {
        proxy
    }
}

/// The address to open a TCP connection to for a proxy setting.
pub fn proxy_address(proxy: &str) -> (r: String)
    ensures
        r@ == proxy_address_of(proxy@),
{
    let cs = chars_of(proxy);
    proof {
        reveal_strlit("http://");
        reveal_strlit("https://");
        assert("http://"@.len() == 7 && "https://"@.len() == 8);
    }
    if chars_start_with(&cs, "http://") {
        crate::text::string_from_chars(&cs, 7, cs.len())
    } else if chars_start_with(&cs, "https://") {
        crate::text::string_from_chars(&cs, 8, cs.len())
    } else {
        string_of(proxy)
    }
}

/// "CONNECT host:port HTTP/1.1" with a Host header and an empty line.
pub open spec fn connect_request_of(host: Seq<char>, port: u16) -> Seq<char> {
    "CONNECT "@ + host + ":"@ + crate::text::int_text(port as int) + " HTTP/1.1\r\nHost: "@ + host
        + ":"@ + crate::text::int_text(port as int) + "\r\n\r\n"@
}

/// The CONNECT request a proxy is sent for `host:port`.
pub fn proxy_connect_request(host: &str, port: u16) -> (r: String)
    ensures
        r@ == connect_request_of(host@, port),
{
    let p = crate::text::u64_to_string(port as u64);
    let mut s = string_of("CONNECT ");
    push_str(&mut s, host);
    push_str(&mut s, ":");
    push_str(&mut s, p.as_str());
    push_str(&mut s, " HTTP/1.1\r\nHost: ");
    push_str(&mut s, host);
    push_str(&mut s, ":");
    push_str(&mut s, p.as_str());
    push_str(&mut s, "\r\n\r\n");
    assert(s@ =~= connect_request_of(host@, port));
    s
}

/// "\r\n\r\n" starts at `i`.
pub open spec fn blank_line_at(bytes: Seq<u8>, i: int) -> bool {
    0 <= i && i + 4 <= bytes.len() && bytes[i] == 13u8 && bytes[i + 1] == 10u8 && bytes[i + 2]
        == 13u8 && bytes[i + 3] == 10u8
}

/// Whether a response holds the blank line that ends its head.
pub open spec fn head_complete(bytes: Seq<u8>) -> bool {
    exists|i: int| #[trigger] blank_line_at(bytes, i)
}

/// Whether the bytes read from a proxy hold "\r\n\r\n".
pub fn proxy_response_complete(bytes: &Vec<u8>) -> (r: bool)
    ensures
        r == head_complete(bytes@),
{
    let mut i: usize = 0;
    while i < bytes.len() && bytes.len() - i >= 4
        invariant
            forall|j: int| 0 <= j < i ==> !#[trigger] blank_line_at(bytes@, j),
        decreases bytes.len() - i,
    {
        if bytes[i] == 13 && bytes[i + 1] == 10 && bytes[i + 2] == 13 && bytes[i + 3] == 10 {
            assert(blank_line_at(bytes@, i as int));
            return true;
        }
        i = i + 1;
    }
    assert forall|j: int| !#[trigger] blank_line_at(bytes@, j) by {
        if 0 <= j < i {
        }
    }
    false
}

/// How many bytes of a proxy's response head are read before giving up.
pub const PROXY_RESPONSE_LIMIT: usize = 8192;

/// What follows a read of a proxy's response head.
#[derive(Debug, Clone, Copy, PartialEq, Eq, Structural)]
pub enum ProxyReadStep {
    /// The head is complete: check its status line.
    Complete,
    /// More than `PROXY_RESPONSE_LIMIT` bytes came without a complete head.
    TooLarge,
    /// Read on.
    More,
}

/// Decides after reading `bytes` of a proxy's response: complete once a blank
/// line has arrived, too large past `PROXY_RESPONSE_LIMIT` bytes without one,
/// otherwise read on.
pub fn after_proxy_read(bytes: &Vec<u8>) -> (r: ProxyReadStep)
    ensures
        head_complete(bytes@) ==> r == ProxyReadStep::Complete,
        !head_complete(bytes@) && bytes@.len() > PROXY_RESPONSE_LIMIT ==> r == ProxyReadStep::TooLarge,
        !head_complete(bytes@) && bytes@.len() <= PROXY_RESPONSE_LIMIT ==> r == ProxyReadStep::More,
{
    if proxy_response_complete(bytes) {
        ProxyReadStep::Complete
    } else if bytes.len() > PROXY_RESPONSE_LIMIT {
        ProxyReadStep::TooLarge
    } else {
        ProxyReadStep::More
    }
}

/// Whether a proxy accepted the CONNECT: its response starts with an HTTP/1.1
/// or HTTP/1.0 status 200.
pub open spec fn connect_accepted(response: Seq<char>) -> bool {
    has_prefix(response, "HTTP/1.1 200"@) || has_prefix(response, "HTTP/1.0 200"@)
}

/// Whether a proxy accepted the CONNECT.
pub fn proxy_response_ok(response: &str) -> (r: bool)
    ensures
        r == connect_accepted(response@),
{
    let cs = chars_of(response);
    chars_start_with(&cs, "HTTP/1.1 200") || chars_start_with(&cs, "HTTP/1.0 200")
}

/// The Gamma URL of an event: the base without trailing slashes, "/slug/" and
/// the slug.
pub open spec fn gamma_event_url_of(base: Seq<char>, slug: Seq<char>) -> Seq<char> {
    strip_trailing_slashes(base) + "/slug/"@ + slug
}

/// A text without its trailing '/' characters.
pub open spec fn strip_trailing_slashes(s: Seq<char>) -> Seq<char>
    decreases s.len(),
{
    if s.len() > 0 && s.last() == '/' {
        strip_trailing_slashes(s.drop_last())
    } else {
        s
    }
}

/// The Gamma URL of an event.
pub fn gamma_event_url(base: &str, slug: &str) -> (r: String)
    ensures
        r@ == gamma_event_url_of(base@, slug@),
{
    let cs = chars_of(base);
    let mut n: usize = cs.len();
    assert(cs@.subrange(0, n as int) =~= cs@);
    while n > 0 && cs[n - 1] == '/'
        invariant
            n <= cs.len(),
            strip_trailing_slashes(cs@) == strip_trailing_slashes(cs@.subrange(0, n as int)),
        decreases n,
    {
        let ghost t = cs@.subrange(0, n as int);
        assert(t.drop_last() =~= cs@.subrange(0, n - 1));
        n = n - 1;
    }
    assert(cs@ == base@);
    let mut s = crate::text::string_from_chars(&cs, 0, n);
    push_str(&mut s, "/slug/");
    push_str(&mut s, slug);
    s
}

/// What the websocket loop does after a text message: count it when it
/// published something, and stop once `max_published` is reached.
pub fn after_ws_message(published: usize, max_published: usize, did_publish: bool) -> (r: (usize, bool))
    requires
        published < usize::MAX,
    ensures
        r.0 == published + (if did_publish {
            1int
        } else {
            0int
        }),
        r.1 == (did_publish && r.0 >= max_published),
{
    if did_publish {
        let p = published + 1;
        (p, p >= max_published)
    } else {
        (published, false)
    }
}

} // verus!
