//! The input snapshot hash of a model context: the SHA-256 of the context's JSON
//! form (fields in declaration order, decimals as strings, timestamps as
//! `[year, ordinal, hour, minute, second, nanosecond, 0, 0, 0]`), in lower-case hex.
use vstd::prelude::*;

use sha2::{Digest, Sha256};

use crate::decimal::{decimal_text, push_decimal, Decimal};
use crate::json::{json_text, push_quoted, quoted};
use crate::model::types::{
    ModelAssignment, ModelCandle, ModelContext, ModelPolymarket, ModelPortfolio, ModelTickInput,
    ModelWindow,
};
use crate::text::{int_text, push_i128, push_str};
use crate::realtime::types::{MAX_UNIX_SECONDS, MIN_UNIX_SECONDS, NANOS_PER_SECOND};
use crate::timefmt::{in_time_range, utc_datetime_fields, utc_fields};

verus! {

/// Name for the SHA-256 digest of a byte string.
pub uninterp spec fn sha256_digest(data: Seq<u8>) -> Seq<u8>;

/// `Sha256::digest`: the 32-byte digest.
#[verifier::external_body]
fn sha256(data: &[u8]) -> (r: Vec<u8>)
    ensures
        r@ == sha256_digest(data@),
        r@.len() == 32,
{
    Sha256::digest(data).to_vec()
}

/// A lower-case hex digit.
pub open spec fn hex_lower(d: int) -> char {
    if d < 10 {
        ((d + 48) as u8) as char
    } else {
        ((d + 87) as u8) as char
    }
}

/// Two lower-case hex digits per byte.
pub open spec fn hex_text(bytes: Seq<u8>) -> Seq<char>
    decreases bytes.len(),
{
    if bytes.len() == 0 {
        Seq::empty()
    } else {
        hex_text(bytes.drop_last()) + seq![
            hex_lower((bytes.last() / 16) as int),
            hex_lower((bytes.last() % 16) as int),
        ]
    }
}

/// `key:` for a field, quoted.
#[verifier::opaque]
pub open spec fn key(name: Seq<char>) -> Seq<char> {
    quoted(name) + seq![':']
}

/// JSON form of a timestamp.
#[verifier::opaque]
pub open spec fn ts_text(ts: int) -> Seq<char> {
    let f = utc_fields(ts);
    seq!['['] + int_text(f.0) + seq![','] + int_text(f.1) + seq![','] + int_text(f.2) + seq![',']
        + int_text(f.3) + seq![','] + int_text(f.4) + seq![','] + int_text(f.5) + seq![
        ',',
        '0',
        ',',
        '0',
        ',',
        '0',
        ']',
    ]
}

/// JSON form of a decimal: its display text as a string.
#[verifier::opaque]
pub open spec fn dec_text(d: Decimal) -> Seq<char> {
    quoted(decimal_text(d.mantissa(), d.scale()))
}

/// JSON form of an optional decimal.
#[verifier::opaque]
pub open spec fn opt_dec_text(d: Option<Decimal>) -> Seq<char> {
    match d {
        Some(v) => dec_text(v),
        None => seq!['n', 'u', 'l', 'l'],
    }
}

/// JSON form of an optional integer.
#[verifier::opaque]
pub open spec fn opt_int_text(n: Option<i64>) -> Seq<char> {
    match n {
        Some(v) => int_text(v as int),
        None => seq!['n', 'u', 'l', 'l'],
    }
}

/// JSON form of an assignment.
#[verifier::opaque]
pub open spec fn assignment_text(a: ModelAssignment) -> Seq<char> {
    seq!['{'] + key("model_key"@) + quoted(a.model_key@) + seq![','] + key("model_version"@)
        + quoted(a.model_version@) + seq![','] + key("parameters"@) + json_text(a.parameters)
        + seq!['}']
}

/// JSON form of a window.
#[verifier::opaque]
pub open spec fn window_text(w: ModelWindow) -> Seq<char> {
    seq!['{'] + key("event_slug"@) + quoted(w.event_slug@) + seq![','] + key("start_ts"@)
        + ts_text(w.start_ts as int) + seq![','] + key("end_ts"@) + ts_text(w.end_ts as int)
        + seq![','] + key("elapsed_ms"@) + int_text(w.elapsed_ms as int) + seq!['}']
}

/// JSON form of a tick.
#[verifier::opaque]
pub open spec fn tick_text(t: ModelTickInput) -> Seq<char> {
    seq!['{'] + key("source"@) + quoted(t.source@) + seq![','] + key("source_ts"@) + ts_text(
        t.source_ts as int,
    ) + seq![','] + key("received_at"@) + ts_text(t.received_at as int) + seq![','] + key(
        "price"@,
    ) + dec_text(t.price) + seq![','] + key("size"@) + opt_dec_text(t.size) + seq![','] + key(
        "sequence"@,
    ) + opt_int_text(t.sequence) + seq!['}']
}

/// JSON form of a candle.
#[verifier::opaque]
pub open spec fn candle_text(c: ModelCandle) -> Seq<char> {
    seq!['{'] + key("start_ts"@) + ts_text(c.start_ts as int) + seq![','] + key("open"@)
        + dec_text(c.open) + seq![','] + key("high"@) + dec_text(c.high) + seq![','] + key(
        "low"@,
    ) + dec_text(c.low) + seq![','] + key("close"@) + dec_text(c.close) + seq![','] + key(
        "volume"@,
    ) + dec_text(c.volume) + seq!['}']
}

/// The first `n` candles, comma separated.
pub open spec fn candles_text(cs: Seq<ModelCandle>, n: nat) -> Seq<char>
    decreases n,
{
    if n == 0 || n > cs.len() {
        Seq::empty()
    } else if n == 1 {
        candle_text(cs[0])
    } else {
        candles_text(cs, (n - 1) as nat) + seq![','] + candle_text(cs[n - 1])
    }
}

/// JSON form of the Polymarket prices.
#[verifier::opaque]
pub open spec fn polymarket_text(p: ModelPolymarket) -> Seq<char> {
    seq!['{'] + key("event_slug"@) + quoted(p.event_slug@) + seq![','] + key("up_price"@)
        + opt_dec_text(p.up_price) + seq![','] + key("down_price"@) + opt_dec_text(p.down_price)
        + seq![','] + key("spread"@) + opt_dec_text(p.spread) + seq![','] + key("liquidity"@)
        + opt_dec_text(p.liquidity) + seq!['}']
}

/// JSON form of the portfolio limits.
#[verifier::opaque]
pub open spec fn portfolio_text(p: ModelPortfolio) -> Seq<char> {
    seq!['{'] + key("bankroll"@) + dec_text(p.bankroll) + seq![','] + key("max_signal_size"@)
        + dec_text(p.max_signal_size) + seq!['}']
}

/// JSON form of a model context.
pub open spec fn context_text(c: ModelContext) -> Seq<char> {
    seq!['{'] + key("market_key"@) + quoted(c.market_key.name()) + seq![','] + key("symbol"@)
        + quoted(c.symbol@) + seq![','] + key("assignment"@) + assignment_text(c.assignment)
        + seq![','] + key("window"@) + window_text(c.window) + seq![','] + key("latest_tick"@)
        + tick_text(c.latest_tick) + seq![','] + key("candles"@) + seq!['['] + candles_text(
        c.candles@,
        c.candles@.len(),
    ) + seq![']'] + seq![','] + key("polymarket"@) + polymarket_text(c.polymarket) + seq![',']
        + key("portfolio"@) + portfolio_text(c.portfolio) + seq!['}']
}

/// Every timestamp of a context lies in the range the `time` crate represents.
pub open spec fn context_times_in_range(c: ModelContext) -> bool {
    &&& in_time_range(c.window.start_ts as int)
    &&& in_time_range(c.window.end_ts as int)
    &&& in_time_range(c.latest_tick.source_ts as int)
    &&& in_time_range(c.latest_tick.received_at as int)
    &&& forall|i: int|
        0 <= i < c.candles@.len() ==> in_time_range(#[trigger] c.candles@[i].start_ts as int)
}

fn time_fits(ts: i128) -> (r: bool)
    ensures
        r == in_time_range(ts as int),
{
    MIN_UNIX_SECONDS * NANOS_PER_SECOND <= ts && ts < (MAX_UNIX_SECONDS + 1) * NANOS_PER_SECOND
}

/// Whether every timestamp of a context lies in the range of the `time` crate.
pub fn context_times_fit(c: &ModelContext) -> (r: bool)
    ensures
        r == context_times_in_range(*c),
{
    if !(time_fits(c.window.start_ts) && time_fits(c.window.end_ts) && time_fits(c.latest_tick.source_ts)
        && time_fits(c.latest_tick.received_at)) {
        return false;
    }
    let mut i: usize = 0;
    while i < c.candles.len()
        invariant
            i <= c.candles.len(),
            forall|j: int| 0 <= j < i ==> in_time_range(#[trigger] c.candles@[j].start_ts as int),
        decreases c.candles.len() - i,
    {
        if !time_fits(c.candles[i].start_ts) {
            return false;
        }
        i = i + 1;
    }
    true
}

/// The input snapshot hash of a context.
pub open spec fn snapshot_hash(c: ModelContext) -> Seq<char> {
    hex_text(sha256_digest(vstd::utf8::encode_utf8(context_text(c))))
}

fn push_key(s: &mut String, name: &str)
    ensures
        final(s)@ == old(s)@ + key(name@),
{
    push_quoted(s, name);
    s.push(':');
    reveal(key);
    assert(final(s)@ =~= old(s)@ + key(name@));
}

fn push_ts(s: &mut String, ts: i128)
    requires
        in_time_range(ts as int),
    ensures
        final(s)@ == old(s)@ + ts_text(ts as int),
{
    let f = utc_datetime_fields(ts);
    s.push('[');
    push_i128(s, f.0 as i128);
    s.push(',');
    push_i128(s, f.1 as i128);
    s.push(',');
    push_i128(s, f.2 as i128);
    s.push(',');
    push_i128(s, f.3 as i128);
    s.push(',');
    push_i128(s, f.4 as i128);
    s.push(',');
    push_i128(s, f.5 as i128);
    push_str(s, ",0,0,0]");
    proof {
        reveal_strlit(",0,0,0]");
        reveal(ts_text);
    }
    assert(final(s)@ =~= old(s)@ + ts_text(ts as int));
}

fn push_dec(s: &mut String, d: &Decimal)
    ensures
        final(s)@ == old(s)@ + dec_text(*d),
{
    let t = d.to_text();
    push_quoted(s, t.as_str());
    reveal(dec_text);
}

fn push_opt_dec(s: &mut String, d: &Option<Decimal>)
    ensures
        final(s)@ == old(s)@ + opt_dec_text(*d),
{
    reveal(opt_dec_text);
    match d {
        Some(v) => push_dec(s, v),
        None => {
            push_str(s, "null");
            proof {
                reveal_strlit("null");
            }
        },
    }
}

fn push_opt_int(s: &mut String, n: Option<i64>)
    ensures
        final(s)@ == old(s)@ + opt_int_text(n),
{
    reveal(opt_int_text);
    match n {
        Some(v) => push_i128(s, v as i128),
        None => {
            push_str(s, "null");
            proof {
                reveal_strlit("null");
            }
        },
    }
}

#[verifier::rlimit(60)]
fn push_candle(s: &mut String, c: &ModelCandle)
    requires
        in_time_range(c.start_ts as int),
    ensures
        final(s)@ == old(s)@ + candle_text(*c),
{
    s.push('{');
    push_key(s, "start_ts");
    push_ts(s, c.start_ts);
    s.push(',');
    push_key(s, "open");
    push_dec(s, &c.open);
    s.push(',');
    push_key(s, "high");
    push_dec(s, &c.high);
    s.push(',');
    push_key(s, "low");
    push_dec(s, &c.low);
    s.push(',');
    push_key(s, "close");
    push_dec(s, &c.close);
    s.push(',');
    push_key(s, "volume");
    push_dec(s, &c.volume);
    s.push('}');
    reveal(candle_text);
    assert(final(s)@ =~= old(s)@ + candle_text(*c));
}

#[verifier::rlimit(60)]
fn push_head(s: &mut String, c: &ModelContext)
    requires
        context_times_in_range(*c),
    ensures
        final(s)@ == old(s)@ + seq!['{'] + key("market_key"@) + quoted(c.market_key.name())
            + seq![','] + key("symbol"@) + quoted(c.symbol@) + seq![','] + key("assignment"@)
            + assignment_text(c.assignment) + seq![','] + key("window"@) + window_text(c.window),
{
    s.push('{');
    push_key(s, "market_key");
    push_quoted(s, c.market_key.as_str());
    s.push(',');
    push_key(s, "symbol");
    push_quoted(s, c.symbol.as_str());
    s.push(',');
    push_key(s, "assignment");
    s.push('{');
    push_key(s, "model_key");
    push_quoted(s, c.assignment.model_key.as_str());
    s.push(',');
    push_key(s, "model_version");
    push_quoted(s, c.assignment.model_version.as_str());
    s.push(',');
    push_key(s, "parameters");
    c.assignment.parameters.write_text(s);
    s.push('}');
    s.push(',');
    push_key(s, "window");
    s.push('{');
    push_key(s, "event_slug");
    push_quoted(s, c.window.event_slug.as_str());
    s.push(',');
    push_key(s, "start_ts");
    push_ts(s, c.window.start_ts);
    s.push(',');
    push_key(s, "end_ts");
    push_ts(s, c.window.end_ts);
    s.push(',');
    push_key(s, "elapsed_ms");
    push_i128(s, c.window.elapsed_ms as i128);
    s.push('}');
    reveal(assignment_text);
    reveal(window_text);
    assert(final(s)@ =~= old(s)@ + seq!['{'] + key("market_key"@) + quoted(c.market_key.name())
        + seq![','] + key("symbol"@) + quoted(c.symbol@) + seq![','] + key("assignment"@)
        + assignment_text(c.assignment) + seq![','] + key("window"@) + window_text(c.window));
}

#[verifier::rlimit(60)]
fn push_tick(s: &mut String, t: &ModelTickInput)
    requires
        in_time_range(t.source_ts as int),
        in_time_range(t.received_at as int),
    ensures
        final(s)@ == old(s)@ + tick_text(*t),
{
    s.push('{');
    push_key(s, "source");
    push_quoted(s, t.source.as_str());
    s.push(',');
    push_key(s, "source_ts");
    push_ts(s, t.source_ts);
    s.push(',');
    push_key(s, "received_at");
    push_ts(s, t.received_at);
    s.push(',');
    push_key(s, "price");
    push_dec(s, &t.price);
    s.push(',');
    push_key(s, "size");
    push_opt_dec(s, &t.size);
    s.push(',');
    push_key(s, "sequence");
    push_opt_int(s, t.sequence);
    s.push('}');
    reveal(tick_text);
    assert(final(s)@ =~= old(s)@ + tick_text(*t));
}

fn push_candles(s: &mut String, cs: &Vec<ModelCandle>)
    requires
        forall|i: int| 0 <= i < cs@.len() ==> in_time_range(#[trigger] cs@[i].start_ts as int),
    ensures
        final(s)@ == old(s)@ + seq!['['] + candles_text(cs@, cs@.len()) + seq![']'],
{
    s.push('[');
    let ghost start = s@;
    let mut i: usize = 0;
    while i < cs.len()
        invariant
            i <= cs.len(),
            start == old(s)@.push('['),
            s@ == start + candles_text(cs@, i as nat),
            forall|k: int| 0 <= k < cs@.len() ==> in_time_range(#[trigger] cs@[k].start_ts as int),
        decreases cs.len() - i,
    {
        if i > 0 {
            s.push(',');
        }
        push_candle(s, &cs[i]);
        i = i + 1;
        assert(s@ =~= start + candles_text(cs@, i as nat));
    }
    s.push(']');
    assert(final(s)@ =~= old(s)@ + seq!['['] + candles_text(cs@, cs@.len()) + seq![']']);
}

#[verifier::rlimit(60)]
fn push_polymarket(s: &mut String, p: &ModelPolymarket)
    ensures
        final(s)@ == old(s)@ + polymarket_text(*p),
{
    s.push('{');
    push_key(s, "event_slug");
    push_quoted(s, p.event_slug.as_str());
    s.push(',');
    push_key(s, "up_price");
    push_opt_dec(s, &p.up_price);
    s.push(',');
    push_key(s, "down_price");
    push_opt_dec(s, &p.down_price);
    s.push(',');
    push_key(s, "spread");
    push_opt_dec(s, &p.spread);
    s.push(',');
    push_key(s, "liquidity");
    push_opt_dec(s, &p.liquidity);
    s.push('}');
    reveal(polymarket_text);
    assert(final(s)@ =~= old(s)@ + polymarket_text(*p));
}

/// The JSON text of a context, as `serde_json::to_vec` writes the derived form.
#[verifier::rlimit(60)]
pub fn context_json_text(c: &ModelContext) -> (r: String)
    requires
        context_times_in_range(*c),
    ensures
        r@ == context_text(*c),
{
    let mut s = String::new();
    push_head(&mut s, c);
    s.push(',');
    push_key(&mut s, "latest_tick");
    push_tick(&mut s, &c.latest_tick);
    s.push(',');
    push_key(&mut s, "candles");
    push_candles(&mut s, &c.candles);
    s.push(',');
    push_key(&mut s, "polymarket");
    push_polymarket(&mut s, &c.polymarket);
    s.push(',');
    push_key(&mut s, "portfolio");
    s.push('{');
    push_key(&mut s, "bankroll");
    push_dec(&mut s, &c.portfolio.bankroll);
    s.push(',');
    push_key(&mut s, "max_signal_size");
    push_dec(&mut s, &c.portfolio.max_signal_size);
    s.push('}');
    let ghost before_close = s@;
    s.push('}');
    reveal(portfolio_text);
    assert(s@ =~= context_text(*c));
    s
}

fn hex_char(d: u8) -> (c: char)
    requires
        d < 16,
    ensures
        c == hex_lower(d as int),
{
    if d < 10 {
        (d + 48) as char
    } else {
        (d + 87) as char
    }
}

/// Two lower-case hex digits per byte.
pub fn to_hex(bytes: &Vec<u8>) -> (r: String)
    ensures
        r@ == hex_text(bytes@),
{
    let mut s = String::new();
    let mut i: usize = 0;
    while i < bytes.len()
        invariant
            i <= bytes.len(),
            s@ == hex_text(bytes@.subrange(0, i as int)),
        decreases bytes.len() - i,
    {
        let b = bytes[i];
        s.push(hex_char(b / 16));
        s.push(hex_char(b % 16));
        i = i + 1;
        proof {
            let post = bytes@.subrange(0, i as int);
            assert(post.drop_last() =~= bytes@.subrange(0, i - 1));
            assert(post.last() == b);
        }
        assert(s@ =~= hex_text(bytes@.subrange(0, i as int)));
    }
    assert(bytes@.subrange(0, bytes@.len() as int) =~= bytes@);
    s
}

impl ModelContext {
    /// The SHA-256 of the context's JSON form, in lower-case hex.
    pub fn input_snapshot_hash(&self) -> (r: String)
        requires
            context_times_in_range(*self),
        ensures
            r@ == snapshot_hash(*self),
    {
        let text = context_json_text(self);
        let digest = sha256(text.as_str().as_bytes());
        to_hex(&digest)
    }
}

} // verus!
