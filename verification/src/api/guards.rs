//! Checks and small rules of the API handlers: supported markets, admin token,
//! required fields, limits, labels, and the Feishu dry-run probe.
use vstd::prelude::*;

use crate::json::{json_get, json_get_str, lemma_find_field_at, object3, Json};
use crate::notification::runtime::{mask_webhook_url, masked_webhook};
use crate::notification::types::{FeishuCardInput, NotificationChannelView};
use crate::realtime::types::MarketKey;
use crate::storage::types::{
    uuid_text, uuid_to_string, NewNotificationChannel, NewRuntimeEvent, NotificationChannelRecord,
};
use crate::text::{chars_of, push_str, str_eq, string_from_chars, string_of, trim, trim_string};

verus! {

/// Why a request is refused (the HTTP status it is answered with).
#[derive(Debug, Clone, Copy, PartialEq, Eq, Structural)]
pub enum ApiRejection {
    NotFound,
    BadRequest,
    Unauthorized,
    ServiceUnavailable,
}

/// The market a key text names.
pub open spec fn market_named(text: Seq<char>) -> Option<MarketKey> {
    if text == "btc5m"@ {
        Some(MarketKey::Btc5m)
    } else if text == "eth15m"@ {
        Some(MarketKey::Eth15m)
    } else {
        None
    }
}

/// Whether a list of market texts holds `name`.
pub open spec fn lists_market(supported: Seq<String>, name: Seq<char>) -> bool {
    exists|i: int| 0 <= i < supported.len() && (#[trigger] supported[i])@ == name
}

fn contains_text(supported: &Vec<String>, name: &str) -> (r: bool)
    ensures
        r == lists_market(supported@, name@),
{
    let mut i: usize = 0;
    while i < supported.len()
        invariant
            i <= supported.len(),
            forall|j: int| 0 <= j < i ==> (#[trigger] supported@[j])@ != name@,
        decreases supported.len() - i,
    {
        if str_eq(supported[i].as_str(), name) {
            return true;
        }
        i = i + 1;
    }
    false
}

/// A market key the configuration supports: it must name a market and be
/// listed; otherwise the request is not found.
pub fn supported_market(supported: &Vec<String>, market_key: &str) -> (r: Result<MarketKey, ApiRejection>)
    ensures
        match market_named(market_key@) {
            Some(k) => if lists_market(supported@, k.name()) {
                r == Ok::<MarketKey, ApiRejection>(k)
            } else {
                r == Err::<MarketKey, ApiRejection>(ApiRejection::NotFound)
            },
            None => r == Err::<MarketKey, ApiRejection>(ApiRejection::NotFound),
        },
{
    proof {
        reveal_strlit("btc5m");
        reveal_strlit("eth15m");
        assert("btc5m"@.len() != "eth15m"@.len());
    }
    match MarketKey::parse(market_key) {
        Ok(key) => {
            if contains_text(supported, key.as_str()) {
                Ok(key)
            } else {
                Err(ApiRejection::NotFound)
            }
        },
        Err(_) => Err(ApiRejection::NotFound),
    }
}

/// A required text field: trimmed, and refused when nothing is left.
pub fn non_empty(value: &str) -> (r: Result<String, ApiRejection>)
    ensures
        trim(value@).len() == 0 ==> r == Err::<String, ApiRejection>(ApiRejection::BadRequest),
        trim(value@).len() > 0 ==> (r matches Ok(s) && s@ == trim(value@)),
{
    let t = trim_string(value);
    if t.as_str().unicode_len() == 0 {
        Err(ApiRejection::BadRequest)
    } else {
        Ok(t)
    }
}

/// "Bearer ".
pub open spec fn bearer_prefix() -> Seq<char> {
    seq!['B', 'e', 'a', 'r', 'e', 'r', ' ']
}

/// The token an Authorization header carries: the trimmed text after
/// "Bearer ", when there is one.
pub open spec fn bearer_token(header: Option<Seq<char>>) -> Option<Seq<char>> {
    match header {
        Some(h) => if h.len() >= 7 && h.subrange(0, 7) == bearer_prefix() && trim(
            h.subrange(7, h.len() as int),
        ).len() > 0 {
            Some(trim(h.subrange(7, h.len() as int)))
        } else {
            None
        },
        None => None,
    }
}

/// The text of an optional string slice.
pub open spec fn opt_str(s: Option<&str>) -> Option<Seq<char>> {
    match s {
        Some(t) => Some(t@),
        None => None,
    }
}

/// Admin requests need a configured token (else the service is unavailable)
/// and a matching bearer token (else they are unauthorized).
pub fn require_admin_token(expected: Option<&str>, authorization: Option<&str>) -> (r: Result<(), ApiRejection>)
    ensures
        match opt_str(expected) {
            None => r == Err::<(), ApiRejection>(ApiRejection::ServiceUnavailable),
            Some(e) => match bearer_token(opt_str(authorization)) {
                Some(t) => if t == e {
                    r is Ok
                } else {
                    r == Err::<(), ApiRejection>(ApiRejection::Unauthorized)
                },
                None => r == Err::<(), ApiRejection>(ApiRejection::Unauthorized),
            },
        },
{
    let wanted = match expected {
        Some(e) => e,
        None => return Err(ApiRejection::ServiceUnavailable),
    };
    let header = match authorization {
        Some(h) => h,
        None => return Err(ApiRejection::Unauthorized),
    };
    let cs = chars_of(header);
    let prefix = vec!['B', 'e', 'a', 'r', 'e', 'r', ' '];
    assert(prefix@ =~= bearer_prefix());
    if cs.len() < 7 {
        return Err(ApiRejection::Unauthorized);
    }
    let mut i: usize = 0;
    while i < 7
        invariant
            cs@ == header@,
            opt_str(authorization) == Some(header@),
            opt_str(expected) == Some(wanted@),
            7 <= cs.len(),
            i <= 7,
            prefix@ == bearer_prefix(),
            forall|k: int| 0 <= k < i ==> cs@[k] == prefix@[k],
        decreases 7 - i,
    {
        if cs[i] != prefix[i] {
            assert(cs@.subrange(0, 7)[i as int] != bearer_prefix()[i as int]);
            return Err(ApiRejection::Unauthorized);
        }
        i = i + 1;
    }
    assert(cs@.subrange(0, 7) =~= bearer_prefix());
    let rest = string_from_chars(&cs, 7, cs.len());
    let token = trim_string(rest.as_str());
    if token.as_str().unicode_len() == 0 {
        return Err(ApiRejection::Unauthorized);
    }
    if str_eq(token.as_str(), wanted) {
        Ok(())
    } else {
        Err(ApiRejection::Unauthorized)
    }
}

/// A page size: the given one or the default, clamped to `min..=max`.
pub fn query_limit(limit: Option<i64>, default: i64, min: i64, max: i64) -> (r: i64)
    requires
        min <= max,
    ensures
        r == ({
            let v = match limit {
                Some(l) => l,
                None => default,
            };
            if v < min {
                min
            } else if v > max {
                max
            } else {
                v
            }
        }),
{
    let v = match limit {
        Some(l) => l,
        None => default,
    };
    if v < min {
        min
    } else if v > max {
        max
    } else {
        v
    }
}

/// The display label of a market.
pub open spec fn label_of(key: MarketKey) -> Seq<char> {
    match key {
        MarketKey::Btc5m => "BTC 5m"@,
        MarketKey::Eth15m => "ETH 15m"@,
    }
}

/// The display label of a market.
pub fn market_label(market_key: MarketKey) -> (r: String)
    ensures
        r@ == label_of(market_key),
{
    match market_key {
        MarketKey::Btc5m => string_of("BTC 5m"),
        MarketKey::Eth15m => string_of("ETH 15m"),
    }
}

/// The source whose freshness a market's summary shows.
pub fn default_source(market_key: MarketKey) -> (r: &'static str)
    ensures
        r@ == "coinbase"@,
{
    match market_key {
        MarketKey::Btc5m | MarketKey::Eth15m => "coinbase",
    }
}

/// The markets a list of texts names, in list order.
pub open spec fn named_markets(s: Seq<String>) -> Seq<MarketKey>
    decreases s.len(),
{
    if s.len() == 0 {
        Seq::empty()
    } else {
        named_markets(s.drop_last()) + match market_named(s.last()@) {
            Some(k) => seq![k],
            None => Seq::empty(),
        }
    }
}

/// How many times `k` occurs.
pub open spec fn count_key(s: Seq<MarketKey>, k: MarketKey) -> nat
    decreases s.len(),
{
    if s.len() == 0 {
        0
    } else {
        count_key(s.drop_last(), k) + if s.last() == k {
            1nat
        } else {
            0nat
        }
    }
}

proof fn lemma_named_len(s: Seq<String>)
    ensures
        named_markets(s).len() <= s.len(),
        count_key(named_markets(s), MarketKey::Btc5m) + count_key(named_markets(s), MarketKey::Eth15m)
            == named_markets(s).len(),
    decreases s.len(),
{
    if s.len() > 0 {
        lemma_named_len(s.drop_last());
        let pre = named_markets(s.drop_last());
        match market_named(s.last()@) {
            Some(k) => {
                assert(named_markets(s) == pre + seq![k]);
                assert((pre + seq![k]).drop_last() =~= pre);
            },
            None => {
                assert(named_markets(s) =~= pre);
            },
        }
    }
}

/// The supported markets in key order (all BTC 5m entries, then all ETH 15m
/// entries), as sorting by key text keeps them.
pub open spec fn sorted_markets(s: Seq<String>) -> Seq<MarketKey> {
    Seq::new(count_key(named_markets(s), MarketKey::Btc5m), |i: int| MarketKey::Btc5m) + Seq::new(
        count_key(named_markets(s), MarketKey::Eth15m),
        |i: int| MarketKey::Eth15m,
    )
}

/// The supported markets, in key order.
pub fn supported_market_keys(supported: &Vec<String>) -> (r: Vec<MarketKey>)
    ensures
        r@ == sorted_markets(supported@),
{
    let mut nb: usize = 0;
    let mut ne: usize = 0;
    let mut i: usize = 0;
    proof {
        reveal_strlit("btc5m");
        reveal_strlit("eth15m");
        assert("btc5m"@.len() != "eth15m"@.len());
    }
    while i < supported.len()
        invariant
            i <= supported.len(),
            "btc5m"@ != "eth15m"@,
            nb == count_key(named_markets(supported@.subrange(0, i as int)), MarketKey::Btc5m),
            ne == count_key(named_markets(supported@.subrange(0, i as int)), MarketKey::Eth15m),
            nb + ne <= i,
        decreases supported.len() - i,
    {
        let ghost pre = supported@.subrange(0, i as int);
        let ghost next = supported@.subrange(0, i + 1);
        assert(next.drop_last() =~= pre);
        proof {
            lemma_named_len(pre);
        }
        match MarketKey::parse(supported[i].as_str()) {
            Ok(MarketKey::Btc5m) => {
                assert(named_markets(next) == named_markets(pre) + seq![MarketKey::Btc5m]);
                assert((named_markets(pre) + seq![MarketKey::Btc5m]).drop_last() =~= named_markets(pre));
                nb = nb + 1;
            },
            Ok(MarketKey::Eth15m) => {
                assert(named_markets(next) == named_markets(pre) + seq![MarketKey::Eth15m]);
                assert((named_markets(pre) + seq![MarketKey::Eth15m]).drop_last() =~= named_markets(pre));
                ne = ne + 1;
            },
            Err(_) => {
                assert(named_markets(next) =~= named_markets(pre));
            },
        }
        i = i + 1;
    }
    assert(supported@.subrange(0, i as int) =~= supported@);
    let mut out: Vec<MarketKey> = Vec::new();
    let mut j: usize = 0;
    while j < nb
        invariant
            j <= nb,
            out@ =~= Seq::new(j as nat, |k: int| MarketKey::Btc5m),
        decreases nb - j,
    {
        out.push(MarketKey::Btc5m);
        j = j + 1;
    }
    let mut j: usize = 0;
    while j < ne
        invariant
            j <= ne,
            out@ =~= Seq::new(nb as nat, |k: int| MarketKey::Btc5m) + Seq::new(j as nat, |k: int| MarketKey::Eth15m),
        decreases ne - j,
    {
        out.push(MarketKey::Eth15m);
        j = j + 1;
    }
    out
}

/// The reason a dry-run card gives.
pub const DRY_RUN_REASON: &'static str = "Dry-run notification probe; no signal or order was created.";

/// Whether a channel is probed by a dry run: an enabled Feishu channel, with
/// the requested name when one is given (blank counts as none).
pub open spec fn probed(channel: NotificationChannelRecord, name: Option<Seq<char>>) -> bool {
    &&& channel.enabled
    &&& channel.channel_type@ == "feishu"@
    &&& match name {
        Some(n) => trim(n).len() == 0 || channel.name@ == trim(n),
        None => true,
    }
}

/// The positions of the channels a dry run probes, in order.
pub fn dry_run_channels(channels: &Vec<NotificationChannelRecord>, channel_name: Option<&str>) -> (r: Vec<usize>)
    ensures
        forall|k: int| 0 <= k < r@.len() ==> (#[trigger] r@[k]) < channels@.len(),
        forall|k: int| 0 <= k < r@.len() ==> probed(channels@[r@[k] as int], opt_str(channel_name)),
        forall|a: int, b: int| 0 <= a < b < r@.len() ==> r@[a] < r@[b],
        forall|i: int|
            0 <= i < channels@.len() && probed(#[trigger] channels@[i], opt_str(channel_name)) ==> exists|
                k: int,
            | 0 <= k < r@.len() && r@[k] == i,
{
    let wanted: Option<String> = match channel_name {
        Some(n) => {
            let t = trim_string(n);
            if t.as_str().unicode_len() == 0 {
                None
            } else {
                Some(t)
            }
        },
        None => None,
    };
    let mut out: Vec<usize> = Vec::new();
    let mut i: usize = 0;
    while i < channels.len()
        invariant
            i <= channels.len(),
            match opt_str(channel_name) {
                Some(n) => if trim(n).len() == 0 {
                    wanted is None
                } else {
                    wanted matches Some(w) && w@ == trim(n)
                },
                None => wanted is None,
            },
            forall|k: int| 0 <= k < out@.len() ==> (#[trigger] out@[k]) < i,
            forall|k: int| 0 <= k < out@.len() ==> probed(channels@[out@[k] as int], opt_str(channel_name)),
            forall|a: int, b: int| 0 <= a < b < out@.len() ==> out@[a] < out@[b],
            forall|c: int|
                0 <= c < i && probed(#[trigger] channels@[c], opt_str(channel_name)) ==> exists|k: int|
                    0 <= k < out@.len() && out@[k] == c,
        decreases channels.len() - i,
    {
        let ch = &channels[i];
        let name_ok = match &wanted {
            Some(w) => str_eq(ch.name.as_str(), w.as_str()),
            None => true,
        };
        let ghost before = out@;
        if ch.enabled && str_eq(ch.channel_type.as_str(), "feishu") && name_ok {
            out.push(i);
        }
        proof {
            assert forall|c: int|
                0 <= c < i + 1 && probed(#[trigger] channels@[c], opt_str(channel_name)) implies exists|k: int|
                    0 <= k < out@.len() && out@[k] == c by {
                if c < i {
                    let k = choose|k: int| 0 <= k < before.len() && before[k] == c;
                    assert(out@[k] == before[k]);
                } else {
                    assert(out@[out@.len() - 1] == i);
                }
            }
        }
        i = i + 1;
    }
    out
}

/// "Polymarket <label> Dry Run".
pub fn dry_run_title(market_key: MarketKey) -> (r: String)
    ensures
        r@ == "Polymarket "@ + label_of(market_key) + " Dry Run"@,
{
    let mut s = string_of("Polymarket ");
    let label = market_label(market_key);
    push_str(&mut s, label.as_str());
    push_str(&mut s, " Dry Run");
    s
}

/// The card input of a dry-run probe sent at `now`.
pub fn dry_run_card_input(market_key: MarketKey, channel: &NotificationChannelRecord, reason: &str, now: i128) -> (r: FeishuCardInput)
    ensures
        r.market_key@ == market_key.name(),
        r.market_label@ == label_of(market_key),
        r.window_start == now,
        r.window_end == now,
        r.side@ == "DRY RUN"@,
        r.confidence@ == "n/a"@,
        r.limit_price@ == "n/a"@,
        r.suggested_size@ == "n/a"@,
        r.ttl_ms == 0,
        r.model_key@ == "notification-dry-run"@,
        r.model_version@ == "manual"@,
        r.reason@ == reason@,
        json_get(r.features, "dry_run"@) == Some(Json::Bool(true)),
        json_get(r.features, "orders_created"@) == Some(Json::Bool(false)),
        json_get(r.features, "signals_created"@) == Some(Json::Bool(false)),
        r.channel.name@ == channel.name@,
        r.channel.webhook_url_masked@ == masked_webhook(channel.webhook_url@),
{
    proof {
        reveal_strlit("dry_run");
        reveal_strlit("orders_created");
        reveal_strlit("signals_created");
        assert("dry_run"@.len() == 7 && "orders_created"@.len() == 14 && "signals_created"@.len() == 15);
    }
    FeishuCardInput {
        market_key: string_of(market_key.as_str()),
        market_label: market_label(market_key),
        window_start: now,
        window_end: now,
        side: string_of("DRY RUN"),
        confidence: string_of("n/a"),
        limit_price: string_of("n/a"),
        suggested_size: string_of("n/a"),
        ttl_ms: 0,
        model_key: string_of("notification-dry-run"),
        model_version: string_of("manual"),
        reason: string_of(reason),
        features: object3(
            "dry_run",
            Json::Bool(true),
            "orders_created",
            Json::Bool(false),
            "signals_created",
            Json::Bool(false),
        ),
        channel: NotificationChannelView {
            name: channel.name.clone(),
            webhook_url_masked: mask_webhook_url(channel.webhook_url.as_str()),
        },
    }
}

/// The runtime event that records one dry-run probe of a channel: "info"
/// when the card was sent, else "warn", with the channel and the outcome in
/// its details and no signal or order created.
pub fn dry_run_event(
    market_key: MarketKey,
    channel: &NotificationChannelRecord,
    status: &str,
    response_summary: Option<&str>,
) -> (r: NewRuntimeEvent)
    ensures
        r.component@ == "notification"@,
        r.severity@ == (if status@ == "sent"@ {
            "info"@
        } else {
            "warn"@
        }),
        r.event_type@ == "feishu_dry_run"@,
        r.message@ == "Feishu dry-run "@ + status@ + " for "@ + market_key.name() + " channel "@
            + channel.name@,
        r.details is Object,
        r.details->Object_0@.len() == 9,
        json_get_str(r.details, "market_key"@) == Some(market_key.name()),
        json_get_str(r.details, "channel_id"@) == Some(uuid_text(channel.id)),
        json_get_str(r.details, "channel_name"@) == Some(channel.name@),
        json_get_str(r.details, "channel_type"@) == Some(channel.channel_type@),
        json_get_str(r.details, "webhook_url_masked"@) == Some(masked_webhook(channel.webhook_url@)),
        json_get_str(r.details, "status"@) == Some(status@),
        match response_summary {
            Some(text) => json_get_str(r.details, "response_summary"@) == Some(text@),
            None => json_get(r.details, "response_summary"@) == Some(Json::Null),
        },
        json_get(r.details, "signals_created"@) == Some(Json::Bool(false)),
        json_get(r.details, "orders_created"@) == Some(Json::Bool(false)),
{
    proof {
        reveal_strlit("sent");
        reveal_strlit("market_key");
        reveal_strlit("channel_id");
        reveal_strlit("channel_name");
        reveal_strlit("channel_type");
        reveal_strlit("webhook_url_masked");
        reveal_strlit("status");
        reveal_strlit("response_summary");
        reveal_strlit("signals_created");
        reveal_strlit("orders_created");
    }
    let severity = if str_eq(status, "sent") {
        string_of("info")
    } else {
        string_of("warn")
    };
    let mut message = string_of("Feishu dry-run ");
    push_str(&mut message, status);
    push_str(&mut message, " for ");
    push_str(&mut message, market_key.as_str());
    push_str(&mut message, " channel ");
    push_str(&mut message, channel.name.as_str());
    let summary = match response_summary {
        Some(text) => Json::Str(string_of(text)),
        None => Json::Null,
    };
    let fields: Vec<(String, Json)> = vec![
        (string_of("market_key"), Json::Str(string_of(market_key.as_str()))),
        (string_of("channel_id"), Json::Str(uuid_to_string(channel.id))),
        (string_of("channel_name"), Json::Str(channel.name.clone())),
        (string_of("channel_type"), Json::Str(channel.channel_type.clone())),
        (string_of("webhook_url_masked"), Json::Str(mask_webhook_url(channel.webhook_url.as_str()))),
        (string_of("status"), Json::Str(string_of(status))),
        (string_of("response_summary"), summary),
        (string_of("signals_created"), Json::Bool(false)),
        (string_of("orders_created"), Json::Bool(false)),
    ];
    proof {
        let f = fields@;
        assert(f[0].0@.len() == 10 && f[1].0@.len() == 10 && f[2].0@.len() == 12 && f[3].0@.len() == 12);
        assert(f[4].0@.len() == 18 && f[5].0@.len() == 6 && f[6].0@.len() == 16 && f[7].0@.len() == 15);
        assert(f[8].0@.len() == 14);
        assert(f[1].0@ != f[0].0@) by {
            assert(f[1].0@[0] != f[0].0@[0]);
        }
        assert(f[3].0@ != f[2].0@) by {
            assert(f[3].0@[8] != f[2].0@[8]);
        }
        lemma_find_field_at(f, "market_key"@, 0);
        lemma_find_field_at(f, "channel_id"@, 1);
        lemma_find_field_at(f, "channel_name"@, 2);
        lemma_find_field_at(f, "channel_type"@, 3);
        lemma_find_field_at(f, "webhook_url_masked"@, 4);
        lemma_find_field_at(f, "status"@, 5);
        lemma_find_field_at(f, "response_summary"@, 6);
        lemma_find_field_at(f, "signals_created"@, 7);
        lemma_find_field_at(f, "orders_created"@, 8);
    }
    NewRuntimeEvent {
        component: string_of("notification"),
        severity,
        event_type: string_of("feishu_dry_run"),
        message,
        details: Json::Object(fields),
    }
}

/// A notification channel from an upsert request: every field required, and
/// only Feishu channels.
pub fn channel_request(
    market_key: MarketKey,
    channel_type: &str,
    name: &str,
    webhook_url: &str,
    enabled: bool,
) -> (r: Result<NewNotificationChannel, ApiRejection>)
    ensures
        (trim(channel_type@).len() == 0 || trim(channel_type@) != "feishu"@ || trim(name@).len() == 0
            || trim(webhook_url@).len() == 0) <==> r == Err::<NewNotificationChannel, ApiRejection>(
            ApiRejection::BadRequest,
        ),
        r matches Ok(c) ==> c.market_key@ == market_key.name() && c.channel_type@ == "feishu"@
            && c.name@ == trim(name@) && c.webhook_url@ == trim(webhook_url@) && c.enabled == enabled,
{
    let kind = match non_empty(channel_type) {
        Ok(k) => k,
        Err(e) => return Err(e),
    };
    if !str_eq(kind.as_str(), "feishu") {
        return Err(ApiRejection::BadRequest);
    }
    let name = match non_empty(name) {
        Ok(n) => n,
        Err(e) => return Err(e),
    };
    let webhook_url = match non_empty(webhook_url) {
        Ok(w) => w,
        Err(e) => return Err(e),
    };
    Ok(NewNotificationChannel {
        market_key: string_of(market_key.as_str()),
        channel_type: kind,
        name,
        webhook_url,
        enabled,
    })
}

/// The display name of a model assignment: the given one unless blank, else
/// the model key.
pub fn assignment_display_name(model_key: &str, display_name: Option<&str>) -> (r: String)
    ensures
        r@ == match opt_str(display_name) {
            Some(d) => if trim(d).len() > 0 {
                d
            } else {
                model_key@
            },
            None => model_key@,
        },
{
    match display_name {
        Some(d) => {
            let t = trim_string(d);
            if t.as_str().unicode_len() > 0 {
                string_of(d)
            } else {
                string_of(model_key)
            }
        },
        None => string_of(model_key),
    }
}

} // verus!
