//! Notification values: the card input, the runtime's configuration, counters
//! and errors, jobs and delivery audits.
use vstd::prelude::*;

use crate::json::Json;
use crate::storage::types::{NotificationChannelRecord, SignalWithMarketRecord};
use crate::text::{chars_of, find_from, find_chars, is_whitespace, char_is_whitespace, push_str, string_of};

verus! {

/// What a card shows of its channel: the name and the masked webhook.
#[derive(Debug, Clone, PartialEq, Eq)]
pub struct NotificationChannelView {
    pub name: String,
    pub webhook_url_masked: String,
}

/// Everything a Feishu card shows.
#[derive(Debug)]
pub struct FeishuCardInput {
    pub market_key: String,
    pub market_label: String,
    pub window_start: i128,
    pub window_end: i128,
    pub side: String,
    pub confidence: String,
    pub limit_price: String,
    pub suggested_size: String,
    pub ttl_ms: i32,
    pub model_key: String,
    pub model_version: String,
    pub reason: String,
    pub features: Json,
    pub channel: NotificationChannelView,
}

/// Retry and timeout settings of the notification runtime.
#[derive(Debug, Clone, Copy, PartialEq, Eq, Structural)]
pub struct NotificationRuntimeConfig {
    pub max_attempts: u8,
    pub send_timeout_ms: u64,
    pub retry_base_delay_ms: u64,
}

/// Counters of the notification runtime.
#[derive(Debug, Clone, Copy, PartialEq, Eq, Structural)]
pub struct NotificationRuntimeSnapshot {
    pub accepted: u64,
    pub dropped: u64,
    pub processed: u64,
    pub sent: u64,
    pub failed: u64,
    pub deduped: u64,
    pub retried: u64,
    pub audit_dropped: u64,
}

impl NotificationRuntimeSnapshot {
    /// All counters at zero.
    pub fn zero() -> (r: NotificationRuntimeSnapshot)
        ensures
            r == (NotificationRuntimeSnapshot {
                accepted: 0,
                dropped: 0,
                processed: 0,
                sent: 0,
                failed: 0,
                deduped: 0,
                retried: 0,
                audit_dropped: 0,
            }),
    {
        NotificationRuntimeSnapshot {
            accepted: 0,
            dropped: 0,
            processed: 0,
            sent: 0,
            failed: 0,
            deduped: 0,
            retried: 0,
            audit_dropped: 0,
        }
    }
}

impl Default for NotificationRuntimeSnapshot {
    fn default() -> (r: NotificationRuntimeSnapshot)
        ensures
            r == NotificationRuntimeSnapshot::zero_spec(),
    {
        NotificationRuntimeSnapshot::zero()
    }
}

impl NotificationRuntimeSnapshot {
    /// All counters at zero, as a value.
    pub open spec fn zero_spec() -> NotificationRuntimeSnapshot {
        NotificationRuntimeSnapshot {
            accepted: 0,
            dropped: 0,
            processed: 0,
            sent: 0,
            failed: 0,
            deduped: 0,
            retried: 0,
            audit_dropped: 0,
        }
    }
}

/// What a sender reports of a delivered message.
#[derive(Debug, Clone)]
pub struct NotificationSendOutcome {
    pub response_summary: Option<String>,
}

/// A signal and the channels it may go to.
#[derive(Debug)]
pub struct NotificationJob {
    pub signal: SignalWithMarketRecord,
    pub channels: Vec<NotificationChannelRecord>,
}

/// The audit of one delivery attempt series.
#[derive(Debug)]
pub struct DeliveryAudit {
    pub signal_id: u128,
    pub channel_id: u128,
    pub dedupe_key: String,
    pub status: String,
    pub attempt_count: i32,
    pub response_summary: Option<String>,
}

/// Errors of the notification runtime.
#[derive(Debug, PartialEq, Eq)]
pub enum NotificationError {
    QueueFull,
    QueueClosed,
    Timeout,
    SendFailed(String),
}

/// The path segment that precedes a webhook secret.
pub open spec fn hook_marker() -> Seq<char> {
    seq!['/', 'h', 'o', 'o', 'k', '/']
}

/// The first position at or after `j` that holds whitespace, or the end.
pub open spec fn token_end(s: Seq<char>, j: int) -> int
    decreases s.len() - j,
{
    if j >= s.len() || j < 0 {
        s.len() as int
    } else if is_whitespace(s[j]) {
        j
    } else {
        token_end(s, j + 1)
    }
}

/// The text from `i` on with every token after "/hook/" replaced by "****".
pub open spec fn redacted_from(s: Seq<char>, i: int) -> Seq<char>
    decreases s.len() - i,
{
    if i < 0 || i > s.len() {
        Seq::empty()
    } else {
        match find_from(s, hook_marker(), i) {
            None => s.subrange(i, s.len() as int),
            Some(k) => if k < i || k + 6 > s.len() {
                Seq::empty()
            } else {
                proof {
                    lemma_token_end(s, k + 6);
                }
                s.subrange(i, k + 6) + seq!['*', '*', '*', '*'] + redacted_from(s, token_end(s, k + 6))
            },
        }
    }
}

/// A found marker lies at or after the search start.
proof fn lemma_find_hook(s: Seq<char>, i: int)
    ensures
        find_from(s, hook_marker(), i) matches Some(k) ==> i <= k && k + 6 <= s.len(),
{
    crate::text::lemma_find_from_bounds(s, hook_marker(), i);
}

/// The token end lies between `j` and the end of the text.
pub proof fn lemma_token_end(s: Seq<char>, j: int)
    requires
        0 <= j <= s.len(),
    ensures
        j <= token_end(s, j) <= s.len(),
    decreases s.len() - j,
{
    if j < s.len() && !is_whitespace(s[j]) {
        lemma_token_end(s, j + 1);
    }
}

impl NotificationError {
    /// The error message.
    pub open spec fn message_spec(self) -> Seq<char> {
        match self {
            NotificationError::QueueFull => "notification queue is full"@,
            NotificationError::QueueClosed => "notification queue is closed"@,
            NotificationError::Timeout => "notification send timed out"@,
            NotificationError::SendFailed(m) => "notification send failed: "@ + m@,
        }
    }

    /// The error message (`Display`).
    pub fn message(&self) -> (r: String)
        ensures
            r@ == self.message_spec(),
    {
        match self {
            NotificationError::QueueFull => string_of("notification queue is full"),
            NotificationError::QueueClosed => string_of("notification queue is closed"),
            NotificationError::Timeout => string_of("notification send timed out"),
            NotificationError::SendFailed(m) => {
                let mut s = string_of("notification send failed: ");
                push_str(&mut s, m.as_str());
                s
            },
        }
    }

    /// The message with webhook secrets replaced by "****", safe to store.
    pub fn safe_summary(&self) -> (r: String)
        ensures
            r@ == redacted_from(self.message_spec(), 0),
    {
        let m = self.message();
        redact_webhook_secrets(m.as_str())
    }
}

/// A text with each token that follows "/hook/" replaced by "****".
pub fn redact_webhook_secrets(text: &str) -> (r: String)
    ensures
        r@ == redacted_from(text@, 0),
{
    let cs = chars_of(text);
    let hook = vec!['/', 'h', 'o', 'o', 'k', '/'];
    assert(hook@ =~= hook_marker());
    let mut out = String::new();
    let mut i: usize = 0;
    let mut done = false;
    assert(out@ + redacted_from(cs@, 0) =~= redacted_from(cs@, 0));
    while !done
        invariant
            hook@ == hook_marker(),
            i <= cs.len(),
            !done ==> out@ + redacted_from(cs@, i as int) == redacted_from(cs@, 0),
            done ==> out@ == redacted_from(cs@, 0),
        decreases (if done { 0 } else { cs.len() + 1 - i }),
    {
        let rest = slice_chars(&cs, i);
        proof {
            lemma_find_hook(cs@, i as int);
            lemma_find_offset(cs@, hook_marker(), i as int, 0);
        }
        match find_chars(&rest, &hook) {
            None => {
                assert(rest@ == cs@.subrange(i as int, cs@.len() as int));
                push_chars_range(&mut out, &cs, i, cs.len());
                assert(out@ == redacted_from(cs@, 0));
                done = true;
            },
            Some(k) => {
                let at = i + k;
                let mut j = at + 6;
                proof {
                    lemma_token_end(cs@, j as int);
                }
                while j < cs.len() && !char_is_whitespace(cs[j])
                    invariant
                        at + 6 <= j <= cs.len(),
                        token_end(cs@, at + 6) == token_end(cs@, j as int),
                    decreases cs.len() - j,
                {
                    j = j + 1;
                }
                push_chars_range(&mut out, &cs, i, at + 6);
                push_str(&mut out, "****");
                proof {
                    reveal_strlit("****");
                    assert("****"@ =~= seq!['*', '*', '*', '*']);
                    assert(out@ + redacted_from(cs@, j as int) =~= redacted_from(cs@, 0));
                }
                i = j;
            },
        }
    }
    out
}

/// The characters of `cs` from `i` on.
fn slice_chars(cs: &Vec<char>, i: usize) -> (r: Vec<char>)
    requires
        i <= cs.len(),
    ensures
        r@ == cs@.subrange(i as int, cs@.len() as int),
{
    let mut r: Vec<char> = Vec::new();
    let mut k = i;
    while k < cs.len()
        invariant
            i <= k <= cs.len(),
            r@ == cs@.subrange(i as int, k as int),
        decreases cs.len() - k,
    {
        r.push(cs[k]);
        k = k + 1;
        assert(r@ =~= cs@.subrange(i as int, k as int));
    }
    r
}

/// Appends the characters `cs[from..to]`.
fn push_chars_range(s: &mut String, cs: &Vec<char>, from: usize, to: usize)
    requires
        from <= to <= cs.len(),
    ensures
        final(s)@ == old(s)@ + cs@.subrange(from as int, to as int),
{
    let mut k = from;
    while k < to
        invariant
            from <= k <= to,
            to <= cs.len(),
            s@ == old(s)@ + cs@.subrange(from as int, k as int),
        decreases to - k,
    {
        s.push(cs[k]);
        k = k + 1;
        assert(s@ =~= old(s)@ + cs@.subrange(from as int, k as int));
    }
}

/// Searching a suffix finds the same place, shifted.
proof fn lemma_find_offset(s: Seq<char>, p: Seq<char>, i: int, j: int)
    requires
        0 <= i <= s.len(),
        0 <= j,
    ensures
        find_from(s.subrange(i, s.len() as int), p, j) == (match find_from(s, p, i + j) {
            Some(k) => Some(k - i),
            None => None::<int>,
        }),
    decreases s.len() + 1 - (i + j),
{
    let t = s.subrange(i, s.len() as int);
    if !(i + j + p.len() > s.len()) {
        assert(t.subrange(j, j + p.len()) =~= s.subrange(i + j, i + j + p.len()));
        if s.subrange(i + j, i + j + p.len()) != p {
            lemma_find_offset(s, p, i, j + 1);
        }
    }
}

} // verus!
