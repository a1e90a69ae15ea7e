//! What the API answers with: market summaries and states from the live
//! state, stored records as report rows (decimals as their text, webhook URLs
//! masked), and the per-market cockpit assembled from them.
use vstd::prelude::*;

use crate::decimal::{decimal_text, Decimal};
use crate::json::{json_text, Json};
use crate::notification::runtime::{mask_webhook_url, masked_webhook};
use crate::notification::types::{redact_webhook_secrets, redacted_from};
use crate::realtime::candle::{candle_views, CandleSnapshot};
use crate::api::guards::default_source;
use crate::realtime::state::{market_of, LiveMarketState, RealtimeStateSnapshot};
use crate::realtime::types::{MarketKey, MarketTick, PolymarketSnapshot};
use crate::realtime::window::{same_window, MarketWindowState};
use crate::storage::types::{
    BacktestRunRecord, CandleRecord, ModelAssignmentRecord, NotificationChannelRecord,
    NotificationDeliveryRecord, SignalWithMarketRecord,
};
use crate::text::{str_eq, string_of};

verus! {

/// The text of a decimal.
pub open spec fn dec_text(d: Decimal) -> Seq<char> {
    decimal_text(d.mantissa(), d.scale())
}

/// The text of an optional decimal.
pub open spec fn opt_dec_text(d: Option<Decimal>) -> Option<Seq<char>> {
    match d {
        Some(v) => Some(dec_text(v)),
        None => None,
    }
}

/// The characters of an optional string.
pub open spec fn opt_text(s: Option<String>) -> Option<Seq<char>> {
    match s {
        Some(v) => Some(v@),
        None => None,
    }
}

fn decimal_string(d: &Decimal) -> (r: String)
    ensures
        r@ == dec_text(*d),
{
    d.to_text()
}

fn optional_decimal_string(d: &Option<Decimal>) -> (r: Option<String>)
    ensures
        opt_text(r) == opt_dec_text(*d),
{
    match d {
        Some(v) => Some(v.to_text()),
        None => None,
    }
}

/// A tick as reported.
#[derive(Debug)]
pub struct MarketTickDto {
    pub symbol: String,
    pub source: String,
    pub source_ts: i128,
    pub received_at: i128,
    pub price: String,
    pub size: Option<String>,
    pub sequence: Option<i64>,
}

/// `d` reports the tick `t`.
pub open spec fn tick_dto_of(d: MarketTickDto, t: MarketTick) -> bool {
    &&& d.symbol@ == t.symbol@
    &&& d.source@ == t.source@
    &&& d.source_ts == t.source_ts
    &&& d.received_at == t.received_at
    &&& d.price@ == dec_text(t.price)
    &&& opt_text(d.size) == opt_dec_text(t.size)
    &&& d.sequence == t.sequence
}

impl MarketTickDto {
    /// The report of a tick: its texts and times, decimals as text.
    pub fn from_tick(tick: &MarketTick) -> (r: MarketTickDto)
        ensures
            tick_dto_of(r, *tick),
    {
        MarketTickDto {
            symbol: tick.symbol.clone(),
            source: tick.source.clone(),
            source_ts: tick.source_ts,
            received_at: tick.received_at,
            price: decimal_string(&tick.price),
            size: optional_decimal_string(&tick.size),
            sequence: tick.sequence,
        }
    }
}

/// A Polymarket snapshot as reported.
#[derive(Debug)]
pub struct PolymarketSnapshotDto {
    pub event_slug: String,
    pub captured_at: i128,
    pub up_price: Option<String>,
    pub down_price: Option<String>,
    pub spread: Option<String>,
    pub liquidity: Option<String>,
}

/// `d` reports the snapshot `s`.
pub open spec fn snapshot_dto_of(d: PolymarketSnapshotDto, s: PolymarketSnapshot) -> bool {
    &&& d.event_slug@ == s.event_slug@
    &&& d.captured_at == s.captured_at
    &&& opt_text(d.up_price) == opt_dec_text(s.up_price)
    &&& opt_text(d.down_price) == opt_dec_text(s.down_price)
    &&& opt_text(d.spread) == opt_dec_text(s.spread)
    &&& opt_text(d.liquidity) == opt_dec_text(s.liquidity)
}

impl PolymarketSnapshotDto {
    /// The report of a snapshot: slug, capture time and prices as text.
    pub fn from_snapshot(snapshot: &PolymarketSnapshot) -> (r: PolymarketSnapshotDto)
        ensures
            snapshot_dto_of(r, *snapshot),
    {
        PolymarketSnapshotDto {
            event_slug: snapshot.event_slug.clone(),
            captured_at: snapshot.captured_at,
            up_price: optional_decimal_string(&snapshot.up_price),
            down_price: optional_decimal_string(&snapshot.down_price),
            spread: optional_decimal_string(&snapshot.spread),
            liquidity: optional_decimal_string(&snapshot.liquidity),
        }
    }
}

/// `d` copies the window `w`, both absent or both present.
pub open spec fn opt_window_of(d: Option<MarketWindowState>, w: Option<MarketWindowState>) -> bool {
    match (d, w) {
        (Some(a), Some(b)) => same_window(a, b),
        (None, None) => true,
        _ => false,
    }
}

/// `d` reports the tick `t`, both absent or both present.
pub open spec fn opt_tick_dto_of(d: Option<MarketTickDto>, t: Option<MarketTick>) -> bool {
    match (d, t) {
        (Some(a), Some(b)) => tick_dto_of(a, b),
        (None, None) => true,
        _ => false,
    }
}

/// `d` reports the snapshot `s`, both absent or both present.
pub open spec fn opt_snapshot_dto_of(d: Option<PolymarketSnapshotDto>, s: Option<PolymarketSnapshot>) -> bool {
    match (d, s) {
        (Some(a), Some(b)) => snapshot_dto_of(a, b),
        (None, None) => true,
        _ => false,
    }
}

fn window_of(live: Option<&LiveMarketState>) -> (r: Option<MarketWindowState>)
    ensures
        match live {
            Some(m) => opt_window_of(r, m.current_window),
            None => r is None,
        },
{
    match live {
        Some(m) => match &m.current_window {
            Some(w) => Some(w.copy()),
            None => None,
        },
        None => None,
    }
}

fn tick_of(live: Option<&LiveMarketState>) -> (r: Option<MarketTickDto>)
    ensures
        match live {
            Some(m) => opt_tick_dto_of(r, m.latest_tick),
            None => r is None,
        },
{
    match live {
        Some(m) => match &m.latest_tick {
            Some(t) => Some(MarketTickDto::from_tick(t)),
            None => None,
        },
        None => None,
    }
}

fn snapshot_of(live: Option<&LiveMarketState>) -> (r: Option<PolymarketSnapshotDto>)
    ensures
        match live {
            Some(m) => opt_snapshot_dto_of(r, m.latest_snapshot),
            None => r is None,
        },
{
    match live {
        Some(m) => match &m.latest_snapshot {
            Some(s) => Some(PolymarketSnapshotDto::from_snapshot(s)),
            None => None,
        },
        None => None,
    }
}

/// What the market list shows of one market.
#[derive(Debug)]
pub struct MarketSummaryDto {
    pub market_key: String,
    pub symbol: String,
    pub interval_seconds: i64,
    pub source_status: Option<String>,
    pub current_window: Option<MarketWindowState>,
    pub latest_tick: Option<MarketTickDto>,
    pub latest_snapshot: Option<PolymarketSnapshotDto>,
}

/// `d` summarizes market `key`, whose live entry is `live` and whose source
/// has the status `status`.
pub open spec fn summary_of(
    d: MarketSummaryDto,
    key: MarketKey,
    live: Option<LiveMarketState>,
    status: Option<Seq<char>>,
) -> bool {
    &&& d.market_key@ == key.name()
    &&& d.symbol@ == key.product()
    &&& d.interval_seconds == key.interval()
    &&& opt_text(d.source_status) == status
    &&& match live {
        Some(m) => opt_window_of(d.current_window, m.current_window) && opt_tick_dto_of(
            d.latest_tick,
            m.latest_tick,
        ) && opt_snapshot_dto_of(d.latest_snapshot, m.latest_snapshot),
        None => d.current_window is None && d.latest_tick is None && d.latest_snapshot is None,
    }
}

/// The entry an optional reference points to.
pub open spec fn deref_live(live: Option<&LiveMarketState>) -> Option<LiveMarketState> {
    match live {
        Some(m) => Some(*m),
        None => None,
    }
}

/// The characters of an optional string reference.
pub open spec fn opt_ref_text(s: Option<&String>) -> Option<Seq<char>> {
    match s {
        Some(v) => Some(v@),
        None => None,
    }
}

/// The summary of a market: its key, symbol and interval, the status of its
/// source, and, when the live state tracks it, its window, latest tick and
/// latest snapshot.
pub fn market_summary(
    market_key: MarketKey,
    live: Option<&LiveMarketState>,
    source_status: Option<&String>,
) -> (r: MarketSummaryDto)
    ensures
        summary_of(r, market_key, deref_live(live), opt_ref_text(source_status)),
{
    MarketSummaryDto {
        market_key: string_of(market_key.as_str()),
        symbol: string_of(market_key.symbol()),
        interval_seconds: market_key.interval_seconds(),
        source_status: match source_status {
            Some(s) => Some(s.clone()),
            None => None,
        },
        current_window: window_of(live),
        latest_tick: tick_of(live),
        latest_snapshot: snapshot_of(live),
    }
}

/// `i` is the first entry of `statuses` named `name`.
pub open spec fn first_named(statuses: Seq<(String, String)>, name: Seq<char>, i: int) -> bool {
    &&& 0 <= i < statuses.len()
    &&& statuses[i].0@ == name
    &&& forall|j: int| 0 <= j < i ==> (#[trigger] statuses[j]).0@ != name
}

/// The status listed for a source name (its first entry).
pub open spec fn status_of(statuses: Seq<(String, String)>, name: Seq<char>) -> Option<Seq<char>> {
    if exists|i: int| first_named(statuses, name, i) {
        Some(statuses[choose|i: int| first_named(statuses, name, i)].1@)
    } else {
        None
    }
}

fn lookup_status<'a>(statuses: &'a Vec<(String, String)>, name: &str) -> (r: Option<&'a String>)
    ensures
        opt_ref_text(r) == status_of(statuses@, name@),
{
    let mut i: usize = 0;
    while i < statuses.len()
        invariant
            i <= statuses.len(),
            forall|j: int| 0 <= j < i ==> (#[trigger] statuses@[j]).0@ != name@,
        decreases statuses.len() - i,
    {
        if str_eq(statuses[i].0.as_str(), name) {
            proof {
                assert(first_named(statuses@, name@, i as int));
                let k = choose|k: int| first_named(statuses@, name@, k);
                if k < i {
                    assert(statuses@[k].0@ != name@);
                }
                if k > i {
                    assert(statuses@[i as int].0@ != name@);
                }
                assert(k == i);
            }
            return Some(&statuses[i].1);
        }
        i = i + 1;
    }
    proof {
        if exists|k: int| first_named(statuses@, name@, k) {
            let k = choose|k: int| first_named(statuses@, name@, k);
            assert(statuses@[k].0@ != name@);
        }
    }
    None
}

/// The live entry of a market in an optional state.
pub open spec fn live_of(state: Option<&RealtimeStateSnapshot>, key: MarketKey) -> Option<LiveMarketState> {
    match state {
        Some(s) => market_of(s.markets@, key),
        None => None,
    }
}

/// The summaries of the given markets, in their order: each from the
/// market's live entry, when the state has one, and the status listed for
/// its source.
pub fn market_summaries(
    keys: &Vec<MarketKey>,
    state: Option<&RealtimeStateSnapshot>,
    statuses: &Vec<(String, String)>,
) -> (r: Vec<MarketSummaryDto>)
    requires
        match state {
            Some(s) => s.wf(),
            None => true,
        },
    ensures
        r.len() == keys.len(),
        forall|i: int|
            0 <= i < keys.len() ==> summary_of(
                #[trigger] r@[i],
                keys@[i],
                live_of(state, keys@[i]),
                status_of(statuses@, "coinbase"@),
            ),
{
    let mut out: Vec<MarketSummaryDto> = Vec::new();
    let mut i: usize = 0;
    while i < keys.len()
        invariant
            i <= keys.len(),
            out.len() == i,
            match state {
                Some(s) => s.wf(),
                None => true,
            },
            forall|j: int|
                0 <= j < i ==> summary_of(
                    #[trigger] out@[j],
                    keys@[j],
                    live_of(state, keys@[j]),
                    status_of(statuses@, "coinbase"@),
                ),
        decreases keys.len() - i,
    {
        let key = keys[i];
        let live = match state {
            Some(s) => s.market(key),
            None => None,
        };
        let status = lookup_status(statuses, default_source(key));
        out.push(market_summary(key, live, status));
        i = i + 1;
    }
    out
}

/// The live state of one market as reported.
#[derive(Debug)]
pub struct MarketStateDto {
    pub market_key: String,
    pub latest_tick: Option<MarketTickDto>,
    pub current_window: Option<MarketWindowState>,
    pub latest_snapshot: Option<PolymarketSnapshotDto>,
    pub recent_candles: Vec<CandleSnapshot>,
}

fn copy_candles(candles: &Vec<CandleSnapshot>) -> (r: Vec<CandleSnapshot>)
    ensures
        candle_views(r@) == candle_views(candles@),
{
    let mut out: Vec<CandleSnapshot> = Vec::new();
    let mut i: usize = 0;
    while i < candles.len()
        invariant
            i <= candles.len(),
            out.len() == i,
            forall|j: int| 0 <= j < i ==> (#[trigger] out@[j])@ == candles@[j]@,
        decreases candles.len() - i,
    {
        out.push(candles[i].copy());
        i = i + 1;
    }
    assert(candle_views(out@) =~= candle_views(candles@));
    out
}

/// The state of a market: its key and, when the live state tracks it, its
/// latest tick, window, latest snapshot and candles.
pub fn market_state_dto(market_key: MarketKey, live: Option<&LiveMarketState>) -> (r: MarketStateDto)
    ensures
        r.market_key@ == market_key.name(),
        match live {
            Some(m) => opt_window_of(r.current_window, m.current_window) && opt_tick_dto_of(
                r.latest_tick,
                m.latest_tick,
            ) && opt_snapshot_dto_of(r.latest_snapshot, m.latest_snapshot) && candle_views(
                r.recent_candles@,
            ) == candle_views(m.candles@),
            None => r.current_window is None && r.latest_tick is None && r.latest_snapshot is None
                && r.recent_candles.len() == 0,
        },
{
    MarketStateDto {
        market_key: string_of(market_key.as_str()),
        latest_tick: tick_of(live),
        current_window: window_of(live),
        latest_snapshot: snapshot_of(live),
        recent_candles: match live {
            Some(m) => copy_candles(&m.candles),
            None => Vec::new(),
        },
    }
}

/// A stored candle as reported.
#[derive(Debug)]
pub struct CandleDto {
    pub start_ts: i128,
    pub open: String,
    pub high: String,
    pub low: String,
    pub close: String,
    pub volume: String,
}

/// `d` reports the stored candle `c`.
pub open spec fn candle_dto_of(d: CandleDto, c: CandleRecord) -> bool {
    &&& d.start_ts == c.start_ts
    &&& d.open@ == dec_text(c.open)
    &&& d.high@ == dec_text(c.high)
    &&& d.low@ == dec_text(c.low)
    &&& d.close@ == dec_text(c.close)
    &&& d.volume@ == dec_text(c.volume)
}

impl CandleDto {
    /// The report of a stored candle: its start and prices as text.
    pub fn from_record(record: CandleRecord) -> (r: CandleDto)
        ensures
            candle_dto_of(r, record),
    {
        CandleDto {
            start_ts: record.start_ts,
            open: decimal_string(&record.open),
            high: decimal_string(&record.high),
            low: decimal_string(&record.low),
            close: decimal_string(&record.close),
            volume: decimal_string(&record.volume),
        }
    }
}

/// A signal as reported.
#[derive(Debug)]
pub struct SignalDto {
    pub id: u128,
    pub market_window_id: u128,
    pub model_version_id: u128,
    pub signal_type: String,
    pub side: Option<String>,
    pub confidence: Option<String>,
    pub limit_price: Option<String>,
    pub suggested_size: Option<String>,
    pub ttl_ms: Option<i32>,
    pub reason: String,
    pub features: Json,
    pub input_snapshot_hash: String,
    pub created_at: i128,
}

/// `d` reports the stored signal `s`.
pub open spec fn signal_dto_of(d: SignalDto, s: SignalWithMarketRecord) -> bool {
    &&& d.id == s.id
    &&& d.market_window_id == s.market_window_id
    &&& d.model_version_id == s.model_version_id
    &&& d.signal_type@ == s.signal_type@
    &&& opt_text(d.side) == opt_text(s.side)
    &&& opt_text(d.confidence) == opt_dec_text(s.confidence)
    &&& opt_text(d.limit_price) == opt_dec_text(s.limit_price)
    &&& opt_text(d.suggested_size) == opt_dec_text(s.suggested_size)
    &&& d.ttl_ms == s.ttl_ms
    &&& d.reason@ == s.reason@
    &&& json_text(d.features) == json_text(s.features)
    &&& d.input_snapshot_hash@ == s.input_snapshot_hash@
    &&& d.created_at == s.created_at
}

fn copy_text(s: &Option<String>) -> (r: Option<String>)
    ensures
        opt_text(r) == opt_text(*s),
{
    match s {
        Some(v) => Some(v.clone()),
        None => None,
    }
}

fn signal_dto(record: &SignalWithMarketRecord) -> (r: SignalDto)
    ensures
        signal_dto_of(r, *record),
{
    SignalDto {
        id: record.id,
        market_window_id: record.market_window_id,
        model_version_id: record.model_version_id,
        signal_type: record.signal_type.clone(),
        side: copy_text(&record.side),
        confidence: optional_decimal_string(&record.confidence),
        limit_price: optional_decimal_string(&record.limit_price),
        suggested_size: optional_decimal_string(&record.suggested_size),
        ttl_ms: record.ttl_ms,
        reason: record.reason.clone(),
        features: record.features.copy(),
        input_snapshot_hash: record.input_snapshot_hash.clone(),
        created_at: record.created_at,
    }
}

impl SignalDto {
    /// The report of a stored signal: its fields, decimals as text.
    pub fn from_record(record: SignalWithMarketRecord) -> (r: SignalDto)
        ensures
            signal_dto_of(r, record),
    {
        signal_dto(&record)
    }
}

/// A model assignment as reported.
#[derive(Debug)]
pub struct ModelAssignmentDto {
    pub market_key: String,
    pub model_key: String,
    pub display_name: String,
    pub version: String,
    pub parameters: Json,
    pub status: String,
    pub created_at: i128,
}

/// `d` reports the stored assignment `a`.
pub open spec fn assignment_dto_of(d: ModelAssignmentDto, a: ModelAssignmentRecord) -> bool {
    &&& d.market_key@ == a.market_key@
    &&& d.model_key@ == a.model_key@
    &&& d.display_name@ == a.display_name@
    &&& d.version@ == a.version@
    &&& json_text(d.parameters) == json_text(a.parameters)
    &&& d.status@ == a.status@
    &&& d.created_at == a.created_at
}

fn assignment_dto(record: &ModelAssignmentRecord) -> (r: ModelAssignmentDto)
    ensures
        assignment_dto_of(r, *record),
{
    ModelAssignmentDto {
        market_key: record.market_key.clone(),
        model_key: record.model_key.clone(),
        display_name: record.display_name.clone(),
        version: record.version.clone(),
        parameters: record.parameters.copy(),
        status: record.status.clone(),
        created_at: record.created_at,
    }
}

impl ModelAssignmentDto {
    /// The report of a stored assignment.
    pub fn from_record(record: ModelAssignmentRecord) -> (r: ModelAssignmentDto)
        ensures
            assignment_dto_of(r, record),
    {
        assignment_dto(&record)
    }
}

/// A notification channel as reported: the webhook URL itself is never
/// shown, only its masked form.
#[derive(Debug)]
pub struct NotificationChannelDto {
    pub id: u128,
    pub market_key: String,
    pub channel_type: String,
    pub name: String,
    pub webhook_url: Option<String>,
    pub webhook_url_masked: String,
    pub enabled: bool,
    pub created_at: i128,
}

/// `d` reports the stored channel `c`.
pub open spec fn channel_dto_of(d: NotificationChannelDto, c: NotificationChannelRecord) -> bool {
    &&& d.id == c.id
    &&& d.market_key@ == c.market_key@
    &&& d.channel_type@ == c.channel_type@
    &&& d.name@ == c.name@
    &&& d.webhook_url is None
    &&& d.webhook_url_masked@ == masked_webhook(c.webhook_url@)
    &&& d.enabled == c.enabled
    &&& d.created_at == c.created_at
}

impl NotificationChannelDto {
    /// The report of a stored channel, with its webhook URL masked.
    pub fn from_record(record: NotificationChannelRecord) -> (r: NotificationChannelDto)
        ensures
            channel_dto_of(r, record),
    {
        let masked = mask_webhook_url(record.webhook_url.as_str());
        NotificationChannelDto {
            id: record.id,
            market_key: record.market_key,
            channel_type: record.channel_type,
            name: record.name,
            webhook_url: None,
            webhook_url_masked: masked,
            enabled: record.enabled,
            created_at: record.created_at,
        }
    }
}

/// A delivery as reported.
#[derive(Debug)]
pub struct NotificationDeliveryDto {
    pub id: u128,
    pub market_key: String,
    pub signal_id: u128,
    pub channel_id: u128,
    pub channel_type: String,
    pub channel_name: String,
    pub status: String,
    pub attempt_count: i32,
    pub response_summary: Option<String>,
    pub created_at: i128,
    pub updated_at: i128,
}

/// `d` reports the stored delivery `r`, with every webhook token in its
/// summary masked.
pub open spec fn delivery_dto_of(d: NotificationDeliveryDto, r: NotificationDeliveryRecord) -> bool {
    &&& d.id == r.id
    &&& d.market_key@ == r.market_key@
    &&& d.signal_id == r.signal_id
    &&& d.channel_id == r.channel_id
    &&& d.channel_type@ == r.channel_type@
    &&& d.channel_name@ == r.channel_name@
    &&& d.status@ == r.status@
    &&& d.attempt_count == r.attempt_count
    &&& opt_text(d.response_summary) == match r.response_summary {
        Some(s) => Some(redacted_from(s@, 0)),
        None => None,
    }
    &&& d.created_at == r.created_at
    &&& d.updated_at == r.updated_at
}

impl NotificationDeliveryDto {
    /// The report of a stored delivery.
    pub fn from_record(record: NotificationDeliveryRecord) -> (r: NotificationDeliveryDto)
        ensures
            delivery_dto_of(r, record),
    {
        NotificationDeliveryDto {
            id: record.id,
            market_key: record.market_key,
            signal_id: record.signal_id,
            channel_id: record.channel_id,
            channel_type: record.channel_type,
            channel_name: record.channel_name,
            status: record.status,
            attempt_count: record.attempt_count,
            response_summary: match &record.response_summary {
                Some(s) => Some(redact_webhook_secrets(s.as_str())),
                None => None,
            },
            created_at: record.created_at,
            updated_at: record.updated_at,
        }
    }
}

/// A backtest run as reported.
#[derive(Debug)]
pub struct BacktestRunDto {
    pub id: u128,
    pub market_key: String,
    pub model_key: String,
    pub display_name: String,
    pub model_version: String,
    pub parameters: Json,
    pub started_at: i128,
    pub finished_at: Option<i128>,
    pub window_start: i128,
    pub window_end: i128,
    pub metrics: Json,
    pub status: String,
}

/// `d` reports the stored run `b`.
pub open spec fn backtest_dto_of(d: BacktestRunDto, b: BacktestRunRecord) -> bool {
    &&& d.id == b.id
    &&& d.market_key@ == b.market_key@
    &&& d.model_key@ == b.model_key@
    &&& d.display_name@ == b.display_name@
    &&& d.model_version@ == b.model_version@
    &&& json_text(d.parameters) == json_text(b.parameters)
    &&& d.started_at == b.started_at
    &&& d.finished_at == b.finished_at
    &&& d.window_start == b.window_start
    &&& d.window_end == b.window_end
    &&& json_text(d.metrics) == json_text(b.metrics)
    &&& d.status@ == b.status@
}

impl BacktestRunDto {
    /// The report of a stored backtest run.
    pub fn from_record(record: BacktestRunRecord) -> (r: BacktestRunDto)
        ensures
            backtest_dto_of(r, record),
    {
        BacktestRunDto {
            id: record.id,
            market_key: record.market_key,
            model_key: record.model_key,
            display_name: record.display_name,
            model_version: record.model_version,
            parameters: record.parameters,
            started_at: record.started_at,
            finished_at: record.finished_at,
            window_start: record.window_start,
            window_end: record.window_end,
            metrics: record.metrics,
            status: record.status,
        }
    }
}

/// Index of the market's assignment: the first whose market key is the
/// market's.
pub fn active_assignment(assignments: &Vec<ModelAssignmentRecord>, market_key: MarketKey) -> (r: Option<usize>)
    ensures
        match r {
            Some(i) => i < assignments.len() && assignments@[i as int].market_key@ == market_key.name()
                && forall|j: int| 0 <= j < i ==> (#[trigger] assignments@[j]).market_key@ != market_key.name(),
            None => forall|j: int|
                0 <= j < assignments.len() ==> (#[trigger] assignments@[j]).market_key@ != market_key.name(),
        },
{
    let name = market_key.as_str();
    let mut i: usize = 0;
    while i < assignments.len()
        invariant
            i <= assignments.len(),
            name@ == market_key.name(),
            forall|j: int| 0 <= j < i ==> (#[trigger] assignments@[j]).market_key@ != market_key.name(),
        decreases assignments.len() - i,
    {
        if str_eq(assignments[i].market_key.as_str(), name) {
            return Some(i);
        }
        i = i + 1;
    }
    None
}

/// The signal type of actionable alerts.
pub open spec fn actionable_type() -> Seq<char> {
    "actionable_alert"@
}

/// `i` is the first actionable alert among `s`.
pub open spec fn is_first_actionable(s: Seq<SignalWithMarketRecord>, i: int) -> bool {
    &&& 0 <= i < s.len()
    &&& s[i].signal_type@ == actionable_type()
    &&& forall|j: int| 0 <= j < i ==> (#[trigger] s[j]).signal_type@ != actionable_type()
}

/// Index of the first actionable alert among the signals.
pub fn first_actionable_alert(signals: &Vec<SignalWithMarketRecord>) -> (r: Option<usize>)
    ensures
        match r {
            Some(i) => is_first_actionable(signals@, i as int),
            None => forall|j: int|
                0 <= j < signals.len() ==> (#[trigger] signals@[j]).signal_type@ != actionable_type(),
        },
{
    let mut i: usize = 0;
    while i < signals.len()
        invariant
            i <= signals.len(),
            forall|j: int| 0 <= j < i ==> (#[trigger] signals@[j]).signal_type@ != actionable_type(),
        decreases signals.len() - i,
    {
        proof {
            reveal_strlit("actionable_alert");
        }
        if str_eq(signals[i].signal_type.as_str(), "actionable_alert") {
            return Some(i);
        }
        i = i + 1;
    }
    None
}

/// Whether the latest backtest of a market is looked up again without the
/// model filter: when the filtered lookup found nothing and a model was given.
pub fn needs_unfiltered_backtests(found: usize, model_key: Option<&str>) -> (r: bool)
    ensures
        r == (found == 0 && model_key is Some),
{
    found == 0 && model_key.is_some()
}

fn candle_dtos(records: Vec<CandleRecord>) -> (r: Vec<CandleDto>)
    ensures
        r.len() == records.len(),
        forall|i: int| 0 <= i < records.len() ==> candle_dto_of(#[trigger] r@[i], records@[i]),
{
    let ghost all = records@;
    let mut rest = records;
    let mut out: Vec<CandleDto> = Vec::new();
    while rest.len() > 0
        invariant
            out.len() + rest.len() == all.len(),
            rest@ =~= all.subrange(out.len() as int, all.len() as int),
            forall|i: int| 0 <= i < out.len() ==> candle_dto_of(#[trigger] out@[i], all[i]),
        decreases rest.len(),
    {
        let record = rest.remove(0);
        out.push(CandleDto::from_record(record));
        assert(rest@ =~= all.subrange(out.len() as int, all.len() as int));
    }
    out
}

fn channel_dtos(records: Vec<NotificationChannelRecord>) -> (r: Vec<NotificationChannelDto>)
    ensures
        r.len() == records.len(),
        forall|i: int| 0 <= i < records.len() ==> channel_dto_of(#[trigger] r@[i], records@[i]),
{
    let ghost all = records@;
    let mut rest = records;
    let mut out: Vec<NotificationChannelDto> = Vec::new();
    while rest.len() > 0
        invariant
            out.len() + rest.len() == all.len(),
            rest@ =~= all.subrange(out.len() as int, all.len() as int),
            forall|i: int| 0 <= i < out.len() ==> channel_dto_of(#[trigger] out@[i], all[i]),
        decreases rest.len(),
    {
        let record = rest.remove(0);
        out.push(NotificationChannelDto::from_record(record));
        assert(rest@ =~= all.subrange(out.len() as int, all.len() as int));
    }
    out
}

fn delivery_dtos(records: Vec<NotificationDeliveryRecord>) -> (r: Vec<NotificationDeliveryDto>)
    ensures
        r.len() == records.len(),
        forall|i: int| 0 <= i < records.len() ==> delivery_dto_of(#[trigger] r@[i], records@[i]),
{
    let ghost all = records@;
    let mut rest = records;
    let mut out: Vec<NotificationDeliveryDto> = Vec::new();
    while rest.len() > 0
        invariant
            out.len() + rest.len() == all.len(),
            rest@ =~= all.subrange(out.len() as int, all.len() as int),
            forall|i: int| 0 <= i < out.len() ==> delivery_dto_of(#[trigger] out@[i], all[i]),
        decreases rest.len(),
    {
        let record = rest.remove(0);
        out.push(NotificationDeliveryDto::from_record(record));
        assert(rest@ =~= all.subrange(out.len() as int, all.len() as int));
    }
    out
}

/// What the cockpit shows of one market.
#[derive(Debug)]
pub struct CockpitMarketDto {
    pub summary: MarketSummaryDto,
    pub recent_candles: Vec<CandleDto>,
    pub active_model: Option<ModelAssignmentDto>,
    pub latest_signal: Option<SignalDto>,
    pub latest_actionable_alert: Option<SignalDto>,
    pub latest_backtest: Option<BacktestRunDto>,
    pub notification_channels: Vec<NotificationChannelDto>,
    pub notification_deliveries: Vec<NotificationDeliveryDto>,
}

/// The cockpit view of a market from what was looked up for it: its summary,
/// its candles, its active model, the newest signal and the newest actionable
/// alert (signals newest first), the newest backtest run, its channels and its
/// deliveries.
pub fn cockpit_market(
    summary: MarketSummaryDto,
    candles: Vec<CandleRecord>,
    active: Option<&ModelAssignmentRecord>,
    signals: Vec<SignalWithMarketRecord>,
    backtests: Vec<BacktestRunRecord>,
    channels: Vec<NotificationChannelRecord>,
    deliveries: Vec<NotificationDeliveryRecord>,
) -> (r: CockpitMarketDto)
    ensures
        r.summary == summary,
        r.recent_candles.len() == candles.len(),
        forall|i: int| 0 <= i < candles.len() ==> candle_dto_of(#[trigger] r.recent_candles@[i], candles@[i]),
        match active {
            Some(a) => r.active_model matches Some(d) && assignment_dto_of(d, *a),
            None => r.active_model is None,
        },
        signals.len() == 0 ==> r.latest_signal is None,
        signals.len() > 0 ==> (r.latest_signal matches Some(d) && signal_dto_of(d, signals@[0])),
        r.latest_actionable_alert is None <==> forall|j: int|
            0 <= j < signals.len() ==> (#[trigger] signals@[j]).signal_type@ != actionable_type(),
        r.latest_actionable_alert matches Some(d) ==> exists|i: int|
            is_first_actionable(signals@, i) && signal_dto_of(d, #[trigger] signals@[i]),
        backtests.len() == 0 ==> r.latest_backtest is None,
        backtests.len() > 0 ==> (r.latest_backtest matches Some(d) && backtest_dto_of(d, backtests@[0])),
        r.notification_channels.len() == channels.len(),
        forall|i: int|
            0 <= i < channels.len() ==> channel_dto_of(#[trigger] r.notification_channels@[i], channels@[i]),
        r.notification_deliveries.len() == deliveries.len(),
        forall|i: int|
            0 <= i < deliveries.len() ==> delivery_dto_of(
                #[trigger] r.notification_deliveries@[i],
                deliveries@[i],
            ),
{
    let active_model = match active {
        Some(a) => Some(assignment_dto(a)),
        None => None,
    };
    let latest_signal = if signals.len() > 0 {
        Some(signal_dto(&signals[0]))
    } else {
        None
    };
    let latest_actionable_alert = match first_actionable_alert(&signals) {
        Some(i) => Some(signal_dto(&signals[i])),
        None => None,
    };
    let mut backtests = backtests;
    let ghost runs = backtests@;
    let latest_backtest = if backtests.len() > 0 {
        Some(BacktestRunDto::from_record(backtests.remove(0)))
    } else {
        None
    };
    proof {
        assert(runs.len() > 0 ==> (latest_backtest matches Some(d) && backtest_dto_of(d, runs[0])));
    }
    CockpitMarketDto {
        summary,
        recent_candles: candle_dtos(candles),
        active_model,
        latest_signal,
        latest_actionable_alert,
        latest_backtest,
        notification_channels: channel_dtos(channels),
        notification_deliveries: delivery_dtos(deliveries),
    }
}

} // verus!
