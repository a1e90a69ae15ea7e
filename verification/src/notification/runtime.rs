//! The decisions of the notification runtime: which channels a job goes to,
//! deduplication, the card input of a delivery, retries, audits and counters.
use vstd::prelude::*;

use crate::decimal::{decimal_text, Decimal};
use crate::json::{json_text, Json};
use crate::notification::types::{
    DeliveryAudit, FeishuCardInput, NotificationChannelView, NotificationError, NotificationJob,
    NotificationRuntimeConfig, NotificationRuntimeSnapshot, NotificationSendOutcome,
};
use crate::notification::feishu::{analysis, card_title, feishu_card_text, first_screen, is_feishu_card};
use crate::queue::TrySendOutcome;
use crate::storage::types::{uuid_text, uuid_to_string, NotificationChannelRecord};
use crate::text::{
    ascii_uppercase, chars_of, find_chars, find_sub, push_chars, push_str, str_eq, string_from_chars,
    string_of, to_ascii_uppercase,
};

verus! {

/// The display label of a market key: "BTC 5m", "ETH 15m", or the key itself.
pub open spec fn market_label_of(key: Seq<char>) -> Seq<char> {
    if key == "btc5m"@ {
        "BTC 5m"@
    } else if key == "eth15m"@ {
        "ETH 15m"@
    } else {
        key
    }
}

/// The display label of a market key.
pub fn market_label(market_key: &str) -> (r: String)
    ensures
        r@ == market_label_of(market_key@),
{
    if str_eq(market_key, "btc5m") {
        string_of("BTC 5m")
    } else if str_eq(market_key, "eth15m") {
        string_of("ETH 15m")
    } else {
        string_of(market_key)
    }
}

/// "://".
pub open spec fn scheme_separator() -> Seq<char> {
    seq![':', '/', '/']
}

/// The last four characters (all of a shorter text).
pub open spec fn webhook_suffix(url: Seq<char>) -> Seq<char> {
    url.subrange(
        if url.len() > 4 {
            url.len() - 4
        } else {
            0
        },
        url.len() as int,
    )
}

/// The text before the first '/', or all of it.
pub open spec fn before_slash(s: Seq<char>) -> Seq<char> {
    match find_sub(s, seq!['/']) {
        Some(j) => s.subrange(0, j),
        None => s,
    }
}

/// A webhook URL with its path hidden: "scheme://host/.../" and the last four
/// characters, or ".../" and the last four when there is no scheme.
pub open spec fn masked_webhook(url: Seq<char>) -> Seq<char> {
    match find_sub(url, scheme_separator()) {
        Some(i) => url.subrange(0, i) + scheme_separator() + before_slash(
            url.subrange(i + 3, url.len() as int),
        ) + seq!['/', '.', '.', '.', '/'] + webhook_suffix(url),
        None => seq!['.', '.', '.', '/'] + webhook_suffix(url),
    }
}

/// Hides a webhook URL's path, keeping scheme, host and the last four
/// characters.
pub fn mask_webhook_url(webhook_url: &str) -> (r: String)
    ensures
        r@ == masked_webhook(webhook_url@),
{
    let cs = chars_of(webhook_url);
    let n = cs.len();
    let from = if n > 4 {
        n - 4
    } else {
        0
    };
    let suffix = string_from_chars(&cs, from, n);
    let sep = vec![':', '/', '/'];
    assert(sep@ =~= scheme_separator());
    proof {
        crate::text::lemma_find_from_bounds(cs@, scheme_separator(), 0);
    }
    match find_chars(&cs, &sep) {
        Some(i) => {
            let rest = string_from_chars(&cs, i + 3, n);
            let rest_cs = chars_of(rest.as_str());
            let slash = vec!['/'];
            assert(slash@ =~= seq!['/']);
            proof {
                crate::text::lemma_find_from_bounds(rest_cs@, seq!['/'], 0);
            }
            let host = match find_chars(&rest_cs, &slash) {
                Some(j) => string_from_chars(&rest_cs, 0, j),
                None => rest,
            };
            let mut out = string_from_chars(&cs, 0, i);
            push_str(&mut out, "://");
            push_str(&mut out, host.as_str());
            push_str(&mut out, "/.../");
            push_str(&mut out, suffix.as_str());
            proof {
                reveal_strlit("://");
                reveal_strlit("/.../");
                assert(out@ =~= masked_webhook(webhook_url@));
            }
            out
        },
        None => {
            let mut out = string_of(".../");
            push_str(&mut out, suffix.as_str());
            proof {
                reveal_strlit(".../");
                assert(out@ =~= masked_webhook(webhook_url@));
            }
            out
        },
    }
}

/// A channel takes a job when it is enabled, is a Feishu channel and follows
/// the signal's market.
pub open spec fn channel_takes(job: NotificationJob, channel: NotificationChannelRecord) -> bool {
    channel.enabled && channel.channel_type@ == "feishu"@ && channel.market_key@
        == job.signal.market_key@
}

/// Whether a channel takes a job.
pub fn channel_selected(job: &NotificationJob, channel: &NotificationChannelRecord) -> (r: bool)
    ensures
        r == channel_takes(*job, *channel),
{
    channel.enabled && str_eq(channel.channel_type.as_str(), "feishu") && str_eq(
        channel.market_key.as_str(),
        job.signal.market_key.as_str(),
    )
}

/// The positions of the channels that take a job, in order.
pub fn deliverable_channels(job: &NotificationJob) -> (r: Vec<usize>)
    ensures
        forall|k: int| 0 <= k < r@.len() ==> (#[trigger] r@[k]) < job.channels@.len(),
        forall|k: int| 0 <= k < r@.len() ==> channel_takes(*job, job.channels@[r@[k] as int]),
        forall|a: int, b: int| 0 <= a < b < r@.len() ==> r@[a] < r@[b],
        forall|i: int|
            0 <= i < job.channels@.len() && channel_takes(*job, #[trigger] job.channels@[i]) ==> exists|
                k: int,
            | 0 <= k < r@.len() && r@[k] == i,
{
    let mut out: Vec<usize> = Vec::new();
    let mut i: usize = 0;
    while i < job.channels.len()
        invariant
            i <= job.channels.len(),
            forall|k: int| 0 <= k < out@.len() ==> (#[trigger] out@[k]) < i,
            forall|k: int| 0 <= k < out@.len() ==> channel_takes(*job, job.channels@[out@[k] as int]),
            forall|a: int, b: int| 0 <= a < b < out@.len() ==> out@[a] < out@[b],
            forall|c: int|
                0 <= c < i && channel_takes(*job, #[trigger] job.channels@[c]) ==> exists|k: int|
                    0 <= k < out@.len() && out@[k] == c,
        decreases job.channels.len() - i,
    {
        let ghost before = out@;
        if channel_selected(job, &job.channels[i]) {
            out.push(i);
            assert(out@[out@.len() - 1] == i);
        }
        proof {
            assert forall|c: int|
                0 <= c < i + 1 && channel_takes(*job, #[trigger] job.channels@[c]) implies exists|k: int|
                    0 <= k < out@.len() && out@[k] == c by {
                if c < i {
                    let k = choose|k: int| 0 <= k < before.len() && before[k] == c;
                    assert(out@[k] == before[k]);
                } else {
                    assert(out@[out@.len() - 1] == i);
                }
            }
        }
        i = i + 1;
    }
    out
}

/// The dedupe key of a delivery: the signal's market window and the channel.
pub open spec fn dedupe_key_of(job: NotificationJob, channel: NotificationChannelRecord) -> Seq<char> {
    uuid_text(job.signal.market_window_id) + seq![':'] + uuid_text(channel.id)
}

/// The dedupe key of a delivery.
pub fn dedupe_key(job: &NotificationJob, channel: &NotificationChannelRecord) -> (r: String)
    ensures
        r@ == dedupe_key_of(*job, *channel),
{
    let mut s = uuid_to_string(job.signal.market_window_id);
    s.push(':');
    let c = uuid_to_string(channel.id);
    push_str(&mut s, c.as_str());
    assert(s@ =~= dedupe_key_of(*job, *channel));
    s
}

/// The dedupe keys already delivered, each once.
pub struct DedupeSet {
    keys: Vec<String>,
}

impl DedupeSet {
    /// Whether `key` was marked.
    pub closed spec fn contains(self, key: Seq<char>) -> bool {
        exists|i: int| 0 <= i < self.keys@.len() && (#[trigger] self.keys@[i])@ == key
    }

    /// No key twice.
    pub closed spec fn wf(self) -> bool {
        forall|i: int, j: int|
            0 <= i < j < self.keys@.len() ==> (#[trigger] self.keys@[i])@ != (#[trigger] self.keys@[j])@
    }

    /// The set of the keys marked.
    pub closed spec fn keys(self) -> Set<Seq<char>> {
        Set::new(|k: Seq<char>| self.contains(k))
    }

    /// An empty set.
    pub fn new() -> (r: DedupeSet)
        ensures
            r.wf(),
            forall|k: Seq<char>| !r.contains(k),
    {
        DedupeSet { keys: Vec::new() }
    }

    /// The number of keys marked.
    pub fn len(&self) -> (r: usize)
        requires
            self.wf(),
        ensures
            r == self.keys().len(),
    {
        proof {
            self.lemma_keys_len();
        }
        self.keys.len()
    }

    proof fn lemma_keys_len(self)
        requires
            self.wf(),
        ensures
            self.keys().finite(),
            self.keys().len() == self.keys@.len(),
        decreases self.keys@.len(),
    {
        let s = self.keys@.map_values(|k: String| k@);
        assert(self.keys() =~= s.to_set()) by {
            assert forall|k: Seq<char>| self.keys().contains(k) <==> s.to_set().contains(k) by {
                if self.contains(k) {
                    let i = choose|i: int| 0 <= i < self.keys@.len() && (#[trigger] self.keys@[i])@ == k;
                    assert(s[i] == k);
                }
                if s.to_set().contains(k) {
                    let i = choose|i: int| 0 <= i < s.len() && s[i] == k;
                    assert(self.keys@[i]@ == k);
                }
            }
        }
        assert(s.no_duplicates()) by {
            assert forall|i: int, j: int| 0 <= i < s.len() && 0 <= j < s.len() && i != j implies s[i] != s[j] by {
                if i < j {
                    assert(self.keys@[i]@ != self.keys@[j]@);
                } else {
                    assert(self.keys@[j]@ != self.keys@[i]@);
                }
            }
        }
        s.unique_seq_to_set();
    }
}

/// `after` is `before` with `key` marked: it holds the key, and every other
/// key as `before` does.
pub open spec fn marked(before: DedupeSet, after: DedupeSet, key: Seq<char>) -> bool {
    &&& after.contains(key)
    &&& forall|k: Seq<char>| k != key ==> (#[trigger] after.contains(k) == before.contains(k))
}

/// Marks `dedupe_key` delivered; true when it was not marked before
/// (`HashSet::insert`).
pub fn mark_dedupe(dedupe: &mut DedupeSet, dedupe_key: &str) -> (r: bool)
    requires
        old(dedupe).wf(),
    ensures
        final(dedupe).wf(),
        r == !old(dedupe).contains(dedupe_key@),
        marked(*old(dedupe), *final(dedupe), dedupe_key@),
{
    let mut i: usize = 0;
    while i < dedupe.keys.len()
        invariant
            dedupe.wf(),
            i <= dedupe.keys.len(),
            forall|j: int| 0 <= j < i ==> (#[trigger] dedupe.keys@[j])@ != dedupe_key@,
        decreases dedupe.keys.len() - i,
    {
        if str_eq(dedupe.keys[i].as_str(), dedupe_key) {
            assert(dedupe.contains(dedupe_key@));
            return false;
        }
        i = i + 1;
    }
    let ghost before = dedupe.keys@;
    dedupe.keys.push(string_of(dedupe_key));
    proof {
        let after = dedupe.keys@;
        assert(after[before.len() as int]@ == dedupe_key@);
        assert forall|k: Seq<char>| k != dedupe_key@ implies (#[trigger] dedupe.contains(k)
            == old(dedupe).contains(k)) by {
            if dedupe.contains(k) {
                let j = choose|j: int| 0 <= j < after.len() && (#[trigger] after[j])@ == k;
                assert(j < before.len());
                assert(before[j] == after[j]);
            }
            if old(dedupe).contains(k) {
                let j = choose|j: int| 0 <= j < before.len() && (#[trigger] before[j])@ == k;
                assert(after[j] == before[j]);
            }
        }
        assert forall|a: int, b: int| 0 <= a < b < after.len() implies (#[trigger] after[a])@
            != (#[trigger] after[b])@ by {
            if b < before.len() {
                assert(after[a] == before[a] && after[b] == before[b]);
            } else {
                assert(after[a] == before[a]);
            }
        }
    }
    true
}

proof fn lemma_marked_stays(sets: Seq<DedupeSet>, keys: Seq<Seq<char>>, i: int, t: int)
    requires
        sets.len() == keys.len() + 1,
        forall|u: int| 0 <= u < keys.len() ==> marked(#[trigger] sets[u], sets[u + 1], keys[u]),
        0 <= i < t <= keys.len(),
    ensures
        sets[t].contains(keys[i]),
    decreases t - i,
{
    assert(marked(sets[t - 1], sets[t], keys[t - 1]));
    if t > i + 1 {
        lemma_marked_stays(sets, keys, i, t - 1);
    }
}

/// A delivery is notified at most once per dedupe key: along a run of marks
/// of `keys` taking `sets[t]` to `sets[t + 1]`, a key marked at step `i` is
/// already marked at every later step `j`, so the mark at `j` is refused.
pub proof fn dedupe_law(sets: Seq<DedupeSet>, keys: Seq<Seq<char>>, i: int, j: int)
    requires
        sets.len() == keys.len() + 1,
        forall|t: int| 0 <= t < keys.len() ==> marked(#[trigger] sets[t], sets[t + 1], keys[t]),
        0 <= i < j < keys.len(),
        keys[i] == keys[j],
    ensures
        sets[j].contains(keys[j]),
{
    lemma_marked_stays(sets, keys, i, j);
}

/// A regenerated signal is not notified again: two jobs whose signals belong
/// to the same market window have the same dedupe key on a channel, so once
/// the first is marked, marking the second is refused.
pub proof fn regenerated_signal_law(
    a: NotificationJob,
    b: NotificationJob,
    channel: NotificationChannelRecord,
    before: DedupeSet,
    after: DedupeSet,
)
    requires
        a.signal.market_window_id == b.signal.market_window_id,
        marked(before, after, dedupe_key_of(a, channel)),
    ensures
        dedupe_key_of(a, channel) == dedupe_key_of(b, channel),
        after.contains(dedupe_key_of(b, channel)),
{
}

/// The text of an optional decimal, or "n/a".
pub open spec fn decimal_or_na(d: Option<Decimal>) -> Seq<char> {
    match d {
        Some(v) => decimal_text(v.mantissa(), v.scale()),
        None => "n/a"@,
    }
}

fn decimal_text_or_na(d: &Option<Decimal>) -> (r: String)
    ensures
        r@ == decimal_or_na(*d),
{
    match d {
        Some(v) => v.to_text(),
        None => string_of("n/a"),
    }
}

/// The side shown on a card: the signal's side upper-cased, or "UNKNOWN".
pub open spec fn card_side(side: Option<String>) -> Seq<char> {
    match side {
        Some(s) => ascii_uppercase(s@),
        None => "UNKNOWN"@,
    }
}

/// The card input of a delivery of `job` to `channel`.
pub open spec fn is_card_input(r: FeishuCardInput, job: NotificationJob, channel: NotificationChannelRecord) -> bool {
    &&& r.market_key@ == job.signal.market_key@
    &&& r.market_label@ == market_label_of(job.signal.market_key@)
    &&& r.window_start == job.signal.created_at
    &&& r.window_end == job.signal.created_at
    &&& r.side@ == card_side(job.signal.side)
    &&& r.confidence@ == decimal_or_na(job.signal.confidence)
    &&& r.limit_price@ == decimal_or_na(job.signal.limit_price)
    &&& r.suggested_size@ == decimal_or_na(job.signal.suggested_size)
    &&& r.ttl_ms == (match job.signal.ttl_ms {
        Some(t) => t,
        None => 0,
    })
    &&& r.model_key@ == "model"@
    &&& r.model_version@ == uuid_text(job.signal.model_version_id)
    &&& r.reason@ == job.signal.reason@
    &&& json_text(r.features) == json_text(job.signal.features)
    &&& r.channel.name@ == channel.name@
    &&& r.channel.webhook_url_masked@ == masked_webhook(channel.webhook_url@)
}

/// The card input of a delivery of `job` to `channel`.
pub fn card_input(job: &NotificationJob, channel: &NotificationChannelRecord) -> (r: FeishuCardInput)
    ensures
        is_card_input(r, *job, *channel),
{
    let side = match &job.signal.side {
        Some(s) => to_ascii_uppercase(s.as_str()),
        None => string_of("UNKNOWN"),
    };
    FeishuCardInput {
        market_key: job.signal.market_key.clone(),
        market_label: market_label(job.signal.market_key.as_str()),
        window_start: job.signal.created_at,
        window_end: job.signal.created_at,
        side,
        confidence: decimal_text_or_na(&job.signal.confidence),
        limit_price: decimal_text_or_na(&job.signal.limit_price),
        suggested_size: decimal_text_or_na(&job.signal.suggested_size),
        ttl_ms: match job.signal.ttl_ms {
            Some(t) => t,
            None => 0,
        },
        model_key: string_of("model"),
        model_version: uuid_to_string(job.signal.model_version_id),
        reason: job.signal.reason.clone(),
        features: job.signal.features.copy(),
        channel: NotificationChannelView {
            name: channel.name.clone(),
            webhook_url_masked: mask_webhook_url(channel.webhook_url.as_str()),
        },
    }
}

/// The raw webhook URL of a channel never reaches its card: for one job, two
/// channels with the same name and the same masked URL get the same card
/// text, and card inputs that the same cards fit, whatever their raw URLs.
pub proof fn card_hides_webhook_law(
    job: NotificationJob,
    a: NotificationChannelRecord,
    b: NotificationChannelRecord,
    ia: FeishuCardInput,
    ib: FeishuCardInput,
    card: Json,
)
    requires
        is_card_input(ia, job, a),
        is_card_input(ib, job, b),
        a.name@ == b.name@,
        masked_webhook(a.webhook_url@) == masked_webhook(b.webhook_url@),
    ensures
        is_feishu_card(card, ia) == is_feishu_card(card, ib),
        feishu_card_text(ia) == feishu_card_text(ib),
{
    assert(first_screen(ia) == first_screen(ib));
    assert(analysis(ia) == analysis(ib));
    assert(card_title(ia) == card_title(ib));
}

/// At least one attempt.
pub fn max_attempts(config: &NotificationRuntimeConfig) -> (r: u8)
    ensures
        r == (if config.max_attempts < 1 {
            1
        } else {
            config.max_attempts
        }),
{
    if config.max_attempts < 1 {
        1
    } else {
        config.max_attempts
    }
}

/// The send timeout, at least one millisecond.
pub fn send_timeout_ms(config: &NotificationRuntimeConfig) -> (r: u64)
    ensures
        r == (if config.send_timeout_ms < 1 {
            1
        } else {
            config.send_timeout_ms
        }),
{
    if config.send_timeout_ms < 1 {
        1
    } else {
        config.send_timeout_ms
    }
}

/// What follows a send attempt.
#[derive(Debug)]
pub enum SendStep {
    /// Stop: the delivery was sent or has failed for good.
    Finished { sent: bool, attempt_count: u8, response_summary: Option<String> },
    /// Wait `delay_ms` and try again as attempt `next_attempt`.
    Retry { next_attempt: u8, delay_ms: u64 },
}

/// A final failure after `attempt` attempts, with `summary` as its response.
pub open spec fn is_failed_step(r: SendStep, attempt: u8, summary: Seq<char>) -> bool {
    match r {
        SendStep::Finished { sent, attempt_count, response_summary } => !sent && attempt_count
            == attempt && match response_summary {
            Some(s) => s@ == summary,
            None => false,
        },
        _ => false,
    }
}

/// The retry delay before attempt `next_attempt`: the base delay (at least one
/// millisecond) times the attempt number.
pub open spec fn retry_delay(config: NotificationRuntimeConfig, next_attempt: int) -> int {
    (if config.retry_base_delay_ms < 1 {
        1
    } else {
        config.retry_base_delay_ms as int
    }) * next_attempt
}

/// At least one attempt, as a number.
pub open spec fn attempts_allowed(config: NotificationRuntimeConfig) -> int {
    if config.max_attempts < 1 {
        1
    } else {
        config.max_attempts as int
    }
}

/// `r` follows attempt `attempt` with `result`: a success finishes as sent with
/// its summary; a failure at the last allowed attempt finishes as failed with
/// the error's message; an earlier failure retries after the growing delay.
pub open spec fn send_step_of(
    config: NotificationRuntimeConfig,
    attempt: u8,
    result: Result<NotificationSendOutcome, NotificationError>,
    r: SendStep,
) -> bool {
    match result {
        Ok(outcome) => r == (SendStep::Finished {
            sent: true,
            attempt_count: attempt,
            response_summary: outcome.response_summary,
        }),
        Err(e) => if attempt >= attempts_allowed(config) {
            is_failed_step(r, attempt, e.message_spec())
        } else {
            r == (SendStep::Retry {
                next_attempt: (attempt + 1) as u8,
                delay_ms: retry_delay(config, attempt + 1) as u64,
            })
        },
    }
}

/// A delivery is sent at most `max(n, 1)` times: along a run of attempts
/// `1, 2, ...` taking the sender's replies in turn, in which every step but
/// the last retries, the run is at most `max(n, 1)` long and every reply but
/// the last failed. When the last step finishes, its attempt count is the
/// run's length, it is sent exactly when the last reply succeeded, and a
/// failure comes only at the last allowed attempt; the retries, one per step
/// but the last, number one less than the sends.
pub proof fn send_run_law(
    config: NotificationRuntimeConfig,
    replies: Seq<Result<NotificationSendOutcome, NotificationError>>,
    steps: Seq<SendStep>,
)
    requires
        0 < steps.len() == replies.len() <= 255,
        forall|i: int| 0 <= i < steps.len() ==> send_step_of(config, (i + 1) as u8, #[trigger] replies[i], steps[i]),
        forall|i: int| 0 <= i < steps.len() - 1 ==> #[trigger] steps[i] is Retry,
    ensures
        steps.len() <= attempts_allowed(config),
        forall|i: int| 0 <= i < steps.len() - 1 ==> #[trigger] replies[i] is Err,
        steps.last() is Finished ==> steps.last()->attempt_count == steps.len() && (steps.last()->sent
            <==> replies.last() is Ok) && (!steps.last()->sent ==> steps.len() == attempts_allowed(config)),
{
    let n = steps.len();
    assert forall|i: int| 0 <= i < n - 1 implies #[trigger] replies[i] is Err && i + 1 < attempts_allowed(config) by {
        assert(send_step_of(config, (i + 1) as u8, replies[i], steps[i]));
        assert(steps[i] is Retry);
        assert(((i + 1) as u8) as int == i + 1);
    }
    if n > 1 {
        assert(replies[n - 2] is Err && n - 1 < attempts_allowed(config));
    }
    assert(send_step_of(config, n as u8, replies[n - 1], steps[n - 1]));
    assert((n as u8) as int == n);
}

/// Decides after attempt `attempt`: a success finishes as sent; a failure
/// finishes as failed at the last attempt, else retries after a delay that
/// grows with the attempt number. A final failure keeps the error's message
/// as its summary.
pub fn after_send_attempt(
    config: &NotificationRuntimeConfig,
    attempt: u8,
    result: Result<NotificationSendOutcome, NotificationError>,
) -> (r: SendStep)
    requires
        1 <= attempt,
        retry_delay(*config, attempt + 1) <= u64::MAX,
    ensures
        send_step_of(*config, attempt, result, r),
{
    match result {
        Ok(outcome) => SendStep::Finished {
            sent: true,
            attempt_count: attempt,
            response_summary: outcome.response_summary,
        },
        Err(error) => {
            let max = max_attempts(config);
            if attempt >= max {
                SendStep::Finished {
                    sent: false,
                    attempt_count: attempt,
                    response_summary: Some(error.message()),
                }
            } else {
                let base: u64 = if config.retry_base_delay_ms < 1 {
                    1
                } else {
                    config.retry_base_delay_ms
                };
                let next: u8 = attempt + 1;
                SendStep::Retry { next_attempt: next, delay_ms: base * (next as u64) }
            }
        },
    }
}

/// The audit of a finished delivery.
pub fn delivery_audit(
    job: &NotificationJob,
    channel: &NotificationChannelRecord,
    dedupe_key: String,
    sent: bool,
    attempt_count: u8,
    response_summary: Option<String>,
) -> (r: DeliveryAudit)
    ensures
        r.signal_id == job.signal.id,
        r.channel_id == channel.id,
        r.dedupe_key == dedupe_key,
        r.status@ == (if sent {
            "sent"@
        } else {
            "failed"@
        }),
        r.attempt_count == attempt_count as i32,
        r.response_summary == response_summary,
{
    DeliveryAudit {
        signal_id: job.signal.id,
        channel_id: channel.id,
        dedupe_key,
        status: if sent {
            string_of("sent")
        } else {
            string_of("failed")
        },
        attempt_count: attempt_count as i32,
        response_summary,
    }
}

/// A counter of the notification runtime.
#[derive(Debug, Clone, Copy, PartialEq, Eq, Structural)]
pub enum NotificationCounter {
    Accepted,
    Dropped,
    Processed,
    Sent,
    Failed,
    Deduped,
    Retried,
    AuditDropped,
}

/// The value of one counter.
pub open spec fn counter_value(m: NotificationRuntimeSnapshot, c: NotificationCounter) -> u64 {
    match c {
        NotificationCounter::Accepted => m.accepted,
        NotificationCounter::Dropped => m.dropped,
        NotificationCounter::Processed => m.processed,
        NotificationCounter::Sent => m.sent,
        NotificationCounter::Failed => m.failed,
        NotificationCounter::Deduped => m.deduped,
        NotificationCounter::Retried => m.retried,
        NotificationCounter::AuditDropped => m.audit_dropped,
    }
}

/// Adds one to a counter; the others stay.
pub fn update_metrics(metrics: &mut NotificationRuntimeSnapshot, counter: NotificationCounter)
    requires
        counter_value(*old(metrics), counter) < u64::MAX,
    ensures
        forall|c: NotificationCounter|
            #[trigger] counter_value(*final(metrics), c) == if c == counter {
                counter_value(*old(metrics), c) + 1
            } else {
                counter_value(*old(metrics), c) as int
            },
{
    match counter {
        NotificationCounter::Accepted => metrics.accepted = metrics.accepted + 1,
        NotificationCounter::Dropped => metrics.dropped = metrics.dropped + 1,
        NotificationCounter::Processed => metrics.processed = metrics.processed + 1,
        NotificationCounter::Sent => metrics.sent = metrics.sent + 1,
        NotificationCounter::Failed => metrics.failed = metrics.failed + 1,
        NotificationCounter::Deduped => metrics.deduped = metrics.deduped + 1,
        NotificationCounter::Retried => metrics.retried = metrics.retried + 1,
        NotificationCounter::AuditDropped => metrics.audit_dropped = metrics.audit_dropped + 1,
    }
}

/// What an enqueue answers and which counter it bumps: a queued job counts as
/// accepted, a full queue drops the job, a closed queue counts nothing.
pub fn enqueue_result(outcome: TrySendOutcome) -> (r: (Result<(), NotificationError>, Option<NotificationCounter>))
    ensures
        outcome == TrySendOutcome::Sent ==> r.0 is Ok && r.1 == Some(NotificationCounter::Accepted),
        outcome == TrySendOutcome::Full ==> r.0 == Err::<(), NotificationError>(NotificationError::QueueFull)
            && r.1 == Some(NotificationCounter::Dropped),
        outcome == TrySendOutcome::Closed ==> r.0 == Err::<(), NotificationError>(
            NotificationError::QueueClosed,
        ) && r.1 is None,
{
    match outcome {
        TrySendOutcome::Sent => (Ok(()), Some(NotificationCounter::Accepted)),
        TrySendOutcome::Full => (Err(NotificationError::QueueFull), Some(NotificationCounter::Dropped)),
        TrySendOutcome::Closed => (Err(NotificationError::QueueClosed), None),
    }
}

/// Only actionable alerts are notified.
pub fn should_notify(signal: &crate::storage::types::SignalWithMarketRecord) -> (r: bool)
    ensures
        r == (signal.signal_type@ == "actionable_alert"@),
{
    str_eq(signal.signal_type.as_str(), "actionable_alert")
}

} // verus!
