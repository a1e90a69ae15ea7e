//! The baseline direction model: once the decision offset of a window has
//! passed, it follows the direction of the move since the window opened when
//! that move crosses a threshold, and sizes the trade with fractional Kelly.
use vstd::prelude::*;

use crate::decimal::{
    at, lemma_compare_at, lemma_compare_zero, lemma_parts_le_trans, lemma_parts_total, parts_le, lemma_pow10_positive, pow10, rounded_quotient, top,
    decimal_difference, decimal_product_owned, decimal_quotient, decimal_sum, decimal_text, parts_lt,
    Decimal,
};
use crate::json::{json_text, lemma_fields_text_same, Json};
use crate::realtime::types::opt_parts;
use crate::model::sizing::{kelly_size, kelly_suggestion, SizingConfig, SizingEngine};
use crate::model::snapshot::{context_times_in_range, snapshot_hash};
use crate::model::types::{
    ModelAction, ModelCandidate, ModelContext, ModelDecision, ModelSide,
};
use crate::text::{chars_of, int_text, push_i128, string_from_chars, string_of};

verus! {

/// Key of the baseline model.
pub const BASELINE_DIRECTION_KEY: &'static str = "baseline_direction";

/// Version of the baseline model.
pub const BASELINE_DIRECTION_VERSION: &'static str = "0.1.0";

/// Parameters of the baseline model.
#[derive(Debug, Clone, PartialEq)]
pub struct BaselineDirectionConfig {
    pub decision_offset_ms: i64,
    pub threshold_bps: Decimal,
    pub ttl_ms: i32,
    pub sizing: SizingConfig,
}

/// The baseline direction model.
#[derive(Debug, Clone, PartialEq)]
pub struct BaselineDirectionModel {
    pub config: BaselineDirectionConfig,
}

/// A strategy model: a key, a version and a decision on a context.
pub trait StrategyModel {
    /// The model's key, as text.
    spec fn model_key(&self) -> Seq<char>;

    /// The model's version, as text.
    spec fn model_version(&self) -> Seq<char>;

    /// The model's key.
    fn key(&self) -> (r: &'static str)
        ensures
            r@ == self.model_key(),
    ;

    /// The model's version.
    fn version(&self) -> (r: &'static str)
        ensures
            r@ == self.model_version(),
    ;

    /// The contexts whose numbers the model can compute with.
    spec fn handles(&self, context: ModelContext) -> bool;

    /// Whether the model can compute with the numbers of `context`.
    fn can_decide(&self, context: &ModelContext) -> (r: bool)
        ensures
            r == self.handles(*context),
    ;

    /// The decision on a context.
    fn decide(&self, context: &ModelContext) -> ModelDecision
        requires
            context_times_in_range(*context),
            self.handles(*context),
    ;
}

/// The scale magnitude up to which the baseline model takes the decimals of a
/// context and its sizing fraction: `2^59`. The move, its quotient by the open
/// and the confidence built from it add up scales, and the confidence then
/// goes into the sizing, whose own sums must stay within the decimal scale
/// limit of `2^62 - 1`.
pub open spec fn baseline_scale_limit() -> int {
    0x800_0000_0000_0000
}

/// Every decimal that the baseline model computes with lies within
/// `baseline_scale_limit()`: the latest price, the opening price, both side
/// prices, the bankroll and the sizing fraction.
pub open spec fn baseline_inputs_within(config: BaselineDirectionConfig, context: ModelContext) -> bool {
    let k = baseline_scale_limit();
    &&& context.latest_tick.price.within(k)
    &&& context.candles@.len() > 0 ==> context.candles@[0].open.within(k)
    &&& context.polymarket.up_price is Some ==> context.polymarket.up_price->Some_0.within(k)
    &&& context.polymarket.down_price is Some ==> context.polymarket.down_price->Some_0.within(k)
    &&& context.portfolio.bankroll.within(k)
    &&& config.sizing.fraction.within(k)
}

/// The move since the open, in basis points: `(price - open) / open * 10000`.
pub open spec fn return_bps(price: (int, int), open: (int, int)) -> (int, int) {
    let d = decimal_difference(price.0, price.1, open.0, open.1);
    let q = decimal_quotient(d.0, d.1, open.0, open.1);
    decimal_product_owned(q.0, q.1, 10000, 0)
}

/// The absolute value: the mantissa's sign dropped.
pub open spec fn abs_parts(x: (int, int)) -> (int, int) {
    if x.0 < 0 {
        (-x.0, x.1)
    } else {
        x
    }
}

/// The confidence: `1/2 + |return| / 10000`, capped at `99/100`.
pub open spec fn confidence_of(abs_bps: (int, int)) -> (int, int) {
    let half = decimal_quotient(1, 0, 2, 0);
    let part = decimal_quotient(abs_bps.0, abs_bps.1, 10000, 0);
    let c = decimal_sum(half.0, half.1, part.0, part.1);
    let cap = decimal_quotient(99, 0, 100, 0);
    if parts_lt(cap, c) {
        cap
    } else {
        c
    }
}

/// The smaller of two values.
pub open spec fn min_parts(a: (int, int), b: (int, int)) -> (int, int) {
    if parts_lt(a, b) {
        a
    } else {
        b
    }
}

/// The side a return points to.
pub open spec fn side_of(ret: (int, int)) -> ModelSide {
    if ret.0 >= 0 {
        ModelSide::Up
    } else {
        ModelSide::Down
    }
}

/// The Polymarket price of a side.
pub open spec fn side_price(c: ModelContext, side: ModelSide) -> Option<Decimal> {
    match side {
        ModelSide::Up => c.polymarket.up_price,
        ModelSide::Down => c.polymarket.down_price,
    }
}

/// The suggested size for a context.
pub open spec fn baseline_size(cfg: BaselineDirectionConfig, c: ModelContext, limit: Decimal) -> Option<
    (int, int),
> {
    let ret = return_bps(c.latest_tick.price.parts(), c.candles@[0].open.parts());
    kelly_suggestion(
        c.portfolio.bankroll.parts(),
        cfg.sizing.fraction.parts(),
        min_parts(cfg.sizing.max_size.parts(), c.portfolio.max_signal_size.parts()),
        cfg.sizing.min_size.parts(),
        confidence_of(abs_parts(ret)),
        limit.parts(),
    )
}

/// Why the baseline model does not trade, or `None` when it proposes a candidate.
pub open spec fn baseline_no_trade_reason(cfg: BaselineDirectionConfig, c: ModelContext) -> Option<
    Seq<char>,
> {
    if c.window.elapsed_ms < cfg.decision_offset_ms {
        Some("waiting for decision offset"@)
    } else if c.candles@.len() == 0 {
        Some("missing opening candle"@)
    } else if c.candles@[0].open.mantissa() <= 0 {
        Some("invalid opening price"@)
    } else {
        let ret = return_bps(c.latest_tick.price.parts(), c.candles@[0].open.parts());
        if parts_lt(abs_parts(ret), cfg.threshold_bps.parts()) {
            Some("move below threshold"@)
        } else if side_price(c, side_of(ret)).is_none() {
            Some("missing polymarket side price"@)
        } else if baseline_size(cfg, c, side_price(c, side_of(ret)).unwrap()).is_none() {
            Some("positive edge below minimum size"@)
        } else {
            None
        }
    }
}

/// The feature names of a candidate, in the sorted order a JSON map keeps.
pub open spec fn baseline_feature_keys(f: Seq<(String, Json)>) -> bool {
    &&& f.len() == 10
    &&& f[0].0@ == "abs_return_bps"@
    &&& f[1].0@ == "confidence"@
    &&& f[2].0@ == "elapsed_ms"@
    &&& f[3].0@ == "input_snapshot_hash"@
    &&& f[4].0@ == "limit_price"@
    &&& f[5].0@ == "market_key"@
    &&& f[6].0@ == "model_key"@
    &&& f[7].0@ == "model_version"@
    &&& f[8].0@ == "return_bps"@
    &&& f[9].0@ == "threshold_bps"@
}

/// A decimal's display text with trailing fractional zeros (and a bare point) removed.
pub open spec fn trimmed_decimal_text(t: Seq<char>) -> Seq<char> {
    if t.contains('.') {
        let u = strip_zeros(t);
        if u.len() > 0 && u.last() == '.' {
            u.drop_last()
        } else {
            u
        }
    } else {
        t
    }
}

/// Drops trailing `'0'` characters.
pub open spec fn strip_zeros(t: Seq<char>) -> Seq<char>
    decreases t.len(),
{
    if t.len() > 0 && t.last() == '0' {
        strip_zeros(t.drop_last())
    } else {
        t
    }
}

/// The display text of a decimal without trailing fractional zeros.
pub open spec fn decimal_string_of(d: (int, int)) -> Seq<char> {
    trimmed_decimal_text(decimal_text(d.0, d.1))
}

/// The text of a decimal with trailing fractional zeros removed.
pub fn decimal_string(value: &Decimal) -> (r: String)
    ensures
        r@ == decimal_string_of(value.parts()),
{
    let t = value.to_text();
    let cs = chars_of(t.as_str());
    let mut has_dot = false;
    let mut i: usize = 0;
    while i < cs.len()
        invariant
            i <= cs.len(),
            has_dot == cs@.subrange(0, i as int).contains('.'),
        decreases cs.len() - i,
    {
        proof {
            let post = cs@.subrange(0, i + 1);
            assert(post.drop_last() =~= cs@.subrange(0, i as int));
            if post.contains('.') {
                let k = choose|k: int| 0 <= k < post.len() && post[k] == '.';
                if k < i {
                    assert(cs@.subrange(0, i as int)[k] == '.');
                }
            }
            if cs@.subrange(0, i as int).contains('.') {
                let k = choose|k: int| 0 <= k < i && cs@.subrange(0, i as int)[k] == '.';
                assert(post[k] == '.');
            }
            if cs@[i as int] == '.' {
                assert(post[i as int] == '.');
            }
        }
        has_dot = has_dot || cs[i] == '.';
        i = i + 1;
    }
    assert(cs@.subrange(0, cs@.len() as int) =~= cs@);
    if !has_dot {
        return t;
    }
    let mut end = cs.len();
    while end > 0 && cs[end - 1] == '0'
        invariant
            end <= cs.len(),
            strip_zeros(cs@) == strip_zeros(cs@.subrange(0, end as int)),
        decreases end,
    {
        assert(cs@.subrange(0, end as int).drop_last() =~= cs@.subrange(0, end - 1));
        end = end - 1;
    }
    assert(strip_zeros(cs@.subrange(0, end as int)) == cs@.subrange(0, end as int));
    if end > 0 && cs[end - 1] == '.' {
        assert(cs@.subrange(0, end as int).drop_last() =~= cs@.subrange(0, end - 1));
        string_from_chars(&cs, 0, end - 1)
    } else {
        string_from_chars(&cs, 0, end)
    }
}

impl Default for BaselineDirectionConfig {
    fn default() -> (r: BaselineDirectionConfig)
        ensures
            r.decision_offset_ms == 180_000,
            r.threshold_bps.parts() == (4int, 0int),
            r.ttl_ms == 15_000,
    {
        BaselineDirectionConfig::default_config()
    }
}

impl BaselineDirectionConfig {
    /// Defaults: decide after 180 s, 4 bps threshold, 15 s TTL, half Kelly on a
    /// bankroll of 15 with sizes between 1/2 and 3/2.
    pub fn default_config() -> (r: BaselineDirectionConfig)
        ensures
            r.decision_offset_ms == 180_000,
            r.threshold_bps.parts() == (4int, 0int),
            r.ttl_ms == 15_000,
            r.sizing.bankroll.parts() == (15int, 0int),
            r.sizing.fraction.parts() == decimal_quotient(1, 0, 2, 0),
            r.sizing.max_size.parts() == decimal_quotient(3, 0, 2, 0),
            r.sizing.min_size.parts() == decimal_quotient(1, 0, 2, 0),
    {
        let one = Decimal::from_i64(1);
        let two = Decimal::from_i64(2);
        let three = Decimal::from_i64(3);
        BaselineDirectionConfig {
            decision_offset_ms: 180_000,
            threshold_bps: Decimal::from_i64(4),
            ttl_ms: 15_000,
            sizing: SizingConfig {
                bankroll: Decimal::from_i64(15),
                fraction: one.div(&two),
                max_size: three.div(&two),
                min_size: one.div(&two),
            },
        }
    }
}

impl BaselineDirectionModel {
    /// A model with the given parameters.
    pub fn new(config: BaselineDirectionConfig) -> (r: BaselineDirectionModel)
        ensures
            r.config == config,
    {
        BaselineDirectionModel { config }
    }

    /// The default model for BTC 5m.
    pub fn btc5m_default() -> (r: BaselineDirectionModel)
        ensures
            r.config.decision_offset_ms == 180_000,
            r.config.threshold_bps.parts() == (4int, 0int),
            r.config.ttl_ms == 15_000,
    {
        Self::new(BaselineDirectionConfig::default_config())
    }

    /// The default model for ETH 15m.
    pub fn eth15m_default() -> (r: BaselineDirectionModel)
        ensures
            r.config.decision_offset_ms == 180_000,
            r.config.threshold_bps.parts() == (4int, 0int),
            r.config.ttl_ms == 15_000,
    {
        Self::new(BaselineDirectionConfig::default_config())
    }
}

fn no_trade(reason: &str) -> (r: ModelDecision)
    ensures
        r.action == ModelAction::NoTrade,
        r.side.is_none(),
        r.confidence.is_none(),
        r.limit_price.is_none(),
        r.suggested_size.is_none(),
        r.ttl_ms.is_none(),
        r.reason@ == reason@,
        r.features is Object && r.features->Object_0@.len() == 0,
{
    ModelDecision::no_trade(reason)
}

/// `r` is the baseline model's decision on `context` under `config`: a
/// no-trade with the first reason that applies and nothing else set, or a
/// candidate on the side of the move, at that side's price, with the capped
/// confidence, the Kelly size, the configured time to live and the ten
/// features in key order.
pub open spec fn baseline_decides(config: BaselineDirectionConfig, context: ModelContext, r: ModelDecision) -> bool {
    &&& baseline_no_trade_reason(config, context) is Some ==> r.action == ModelAction::NoTrade
        && r.side.is_none() && r.confidence.is_none() && r.limit_price.is_none()
        && r.suggested_size.is_none() && r.ttl_ms.is_none() && r.features is Object
        && r.features->Object_0@.len() == 0 && r.reason@ == baseline_no_trade_reason(
        config,
        context,
    )->Some_0
    &&& baseline_no_trade_reason(config, context) is None ==> ({
        let ret = return_bps(context.latest_tick.price.parts(), context.candles@[0].open.parts());
        let side = side_of(ret);
        let limit = side_price(context, side).unwrap();
        let f = r.features->Object_0@;
        &&& r.action == ModelAction::Candidate
        &&& r.side == Some(side)
        &&& (side == ModelSide::Up <==> context.candles@[0].open.le(context.latest_tick.price))
        &&& r.limit_price.is_some() && r.limit_price.unwrap().same(limit)
        &&& r.confidence.is_some() && r.confidence.unwrap().parts() == confidence_of(abs_parts(ret))
        &&& r.suggested_size.is_some() && r.suggested_size.unwrap().parts() == baseline_size(
            config,
            context,
            limit,
        ).unwrap()
        &&& r.ttl_ms == Some(config.ttl_ms)
        &&& r.reason@ == "directional threshold crossed"@
        &&& r.features is Object && f.len() == 10
        &&& baseline_feature_keys(f)
        &&& forall|k: int| 0 <= k < 10 && k != 2 ==> (#[trigger] f[k]).1 is Str
        &&& f[6].1->Str_0@ == "baseline_direction"@
        &&& f[7].1->Str_0@ == "0.1.0"@
        &&& f[5].1->Str_0@ == context.market_key.name()
        &&& f[8].1->Str_0@ == decimal_string_of(ret)
        &&& f[0].1->Str_0@ == decimal_string_of(abs_parts(ret))
        &&& f[9].1->Str_0@ == decimal_string_of(config.threshold_bps.parts())
        &&& f[2].1 is Number && f[2].1->Number_0.as_i64 == Some(context.window.elapsed_ms)
            && f[2].1->Number_0.text@ == int_text(context.window.elapsed_ms as int)
        &&& f[4].1->Str_0@ == decimal_string_of(limit.parts())
        &&& f[1].1->Str_0@ == decimal_string_of(confidence_of(abs_parts(ret)))
        &&& f[3].1->Str_0@ == snapshot_hash(context)
    })
}


/// The move and its return point the same way: with `moved = price - open`,
/// `ratio` its rounded quotient by a positive `open` and `bps = ratio * k` for
/// a positive `k`, `bps` is at least zero exactly when the price is at least
/// the open.
proof fn lemma_move_sign(price: Decimal, open: Decimal, moved: Decimal, ratio: Decimal, k: Decimal, bps: Decimal)
    requires
        open.mantissa() > 0,
        k.mantissa() > 0,
        price.is_sum_of(moved, open),
        rounded_quotient(ratio.parts(), moved.parts(), open.parts()),
        bps.is_product_of(ratio, k),
    ensures
        bps.mantissa() >= 0 <==> open.le(price),
{
    let t = top(top(price.scale(), moved.scale()), open.scale());
    lemma_compare_at(open, price, t);
    lemma_pow10_positive((t - moved.scale()) as nat);
    let pm = pow10((t - moved.scale()) as nat);
    assert(moved.mantissa() >= 0 <==> moved.mantissa() * pm >= 0) by (nonlinear_arith)
        requires
            pm > 0,
    ;
    assert(ratio.mantissa() >= 0 <==> moved.mantissa() >= 0);
    let s = ratio.scale() + k.scale();
    let u = top(bps.scale(), s);
    lemma_pow10_positive((u - bps.scale()) as nat);
    lemma_pow10_positive((u - s) as nat);
    let pb = pow10((u - bps.scale()) as nat);
    let ps = pow10((u - s) as nat);
    let rk = ratio.mantissa() * k.mantissa();
    assert(rk >= 0 <==> ratio.mantissa() >= 0) by (nonlinear_arith)
        requires
            k.mantissa() > 0,
            rk == ratio.mantissa() * k.mantissa(),
    ;
    assert(bps.mantissa() * pb == rk * ps);
    assert(bps.mantissa() >= 0 <==> rk >= 0) by (nonlinear_arith)
        requires
            pb > 0,
            ps > 0,
            bps.mantissa() * pb == rk * ps,
    ;
}

/// A candidate never suggests more than either maximum: its size is at most the
/// configured maximum and at most the portfolio's maximum signal size.
pub proof fn suggestion_cap_law(config: BaselineDirectionConfig, context: ModelContext, d: ModelDecision)
    requires
        baseline_decides(config, context, d),
        d.action == ModelAction::Candidate,
    ensures
        d.suggested_size is Some,
        d.suggested_size.unwrap().le(config.sizing.max_size),
        d.suggested_size.unwrap().le(context.portfolio.max_signal_size),
{
    let ret = return_bps(context.latest_tick.price.parts(), context.candles@[0].open.parts());
    let limit = side_price(context, side_of(ret)).unwrap();
    let a = config.sizing.max_size.parts();
    let b = context.portfolio.max_signal_size.parts();
    let cap = min_parts(a, b);
    let p = confidence_of(abs_parts(ret));
    let c = limit.parts();
    let size = kelly_size(context.portfolio.bankroll.parts(), config.sizing.fraction.parts(), p, c);
    let s = d.suggested_size.unwrap().parts();
    assert(baseline_size(config, context, limit) is Some);
    assert(s == baseline_size(config, context, limit).unwrap());
    // The suggestion is the cap or a size not above it.
    lemma_parts_total(cap, size);
    lemma_parts_total(cap, cap);
    assert(parts_le(s, cap));
    // The cap is the smaller maximum.
    lemma_parts_total(a, b);
    if parts_lt(a, b) {
        lemma_parts_le_trans(s, a, b);
    } else {
        lemma_parts_total(a, a);
        lemma_parts_le_trans(s, b, a);
    }
}

/// What a decision says: its action and side, the (mantissa, scale) of its
/// confidence, limit price and suggested size, its time to live, its reason
/// and the text of its features.
pub open spec fn decision_summary(d: ModelDecision) -> (
    ModelAction,
    Option<ModelSide>,
    Option<(int, int)>,
    Option<(int, int)>,
    Option<(int, int)>,
    Option<i32>,
    Seq<char>,
    Seq<char>,
) {
    (
        d.action,
        d.side,
        opt_parts(d.confidence),
        opt_parts(d.limit_price),
        opt_parts(d.suggested_size),
        d.ttl_ms,
        d.reason@,
        json_text(d.features),
    )
}

/// The baseline model is deterministic: two decisions on the same context
/// under the same configuration say the same thing, field for field, and a
/// no-trade decision carries no side, confidence, price, size or time to live
/// and empty features.
pub proof fn baseline_decision_law(
    config: BaselineDirectionConfig,
    context: ModelContext,
    a: ModelDecision,
    b: ModelDecision,
)
    requires
        baseline_decides(config, context, a),
        baseline_decides(config, context, b),
    ensures
        decision_summary(a) == decision_summary(b),
        a.action == ModelAction::NoTrade ==> a.side is None && a.confidence is None
            && a.limit_price is None && a.suggested_size is None && a.ttl_ms is None
            && json_text(a.features) == seq!['{', '}'],
{
    if baseline_no_trade_reason(config, context) is None {
        let fa = a.features->Object_0@;
        let fb = b.features->Object_0@;
        assert forall|k: int| 0 <= k < fa.len() implies (#[trigger] fa[k]).0@ == fb[k].0@
            && json_text(fa[k].1) == json_text(fb[k].1) by {
            if k != 2 {
                assert(fa[k].1 is Str && fb[k].1 is Str);
            }
        }
        lemma_fields_text_same(fa, fb, 10);
        assert(a.limit_price.unwrap().parts() == b.limit_price.unwrap().parts());
    } else {
        assert(json_text(a.features) =~= seq!['{', '}']);
        assert(json_text(b.features) =~= seq!['{', '}']);
    }
}

impl StrategyModel for BaselineDirectionModel {
    open spec fn model_key(&self) -> Seq<char> {
        "baseline_direction"@
    }

    open spec fn model_version(&self) -> Seq<char> {
        "0.1.0"@
    }

    fn key(&self) -> (r: &'static str) {
        BASELINE_DIRECTION_KEY
    }

    fn version(&self) -> (r: &'static str) {
        BASELINE_DIRECTION_VERSION
    }

    open spec fn handles(&self, context: ModelContext) -> bool {
        baseline_inputs_within(self.config, context)
    }

    fn can_decide(&self, context: &ModelContext) -> (r: bool) {
        let k: i64 = 0x800_0000_0000_0000;
        let open_ok = if context.candles.len() > 0 {
            context.candles[0].open.is_within(k)
        } else {
            true
        };
        let up_ok = match &context.polymarket.up_price {
            Some(p) => p.is_within(k),
            None => true,
        };
        let down_ok = match &context.polymarket.down_price {
            Some(p) => p.is_within(k),
            None => true,
        };
        context.latest_tick.price.is_within(k) && open_ok && up_ok && down_ok
            && context.portfolio.bankroll.is_within(k) && self.config.sizing.fraction.is_within(k)
    }

    #[verifier::rlimit(40)]
    fn decide(&self, context: &ModelContext) -> (r: ModelDecision)
        ensures
            baseline_decides(self.config, *context, r),
    {
        if context.window.elapsed_ms < self.config.decision_offset_ms {
            return no_trade("waiting for decision offset");
        }
        if context.candles.len() == 0 {
            return no_trade("missing opening candle");
        }
        let open_price = &context.candles[0].open;
        let zero = Decimal::from_i64(0);
        proof {
            crate::decimal::lemma_compare_zero(*open_price, zero);
        }
        if open_price.less_or_equal(&zero) {
            return no_trade("invalid opening price");
        }
        let moved = context.latest_tick.price.sub(open_price);
        assert(-0x800_0000_0000_0000 <= moved.scale() <= 0x800_0000_0000_0000);
        let ratio = moved.div(open_price);
        assert(-0x1000_0000_0000_0000 <= ratio.scale() <= 0x1000_0002_0000_0000);
        let ten_thousand = Decimal::from_i64(10_000);
        let return_bps = ratio.mul_owned(&ten_thousand);
        assert(-0x1000_0000_0000_0000 <= return_bps.scale() <= 0x1000_0002_0000_0000);
        proof {
            lemma_compare_zero(*open_price, zero);
            lemma_move_sign(context.latest_tick.price, *open_price, moved, ratio, ten_thousand, return_bps);
            crate::decimal::lemma_compare_zero(return_bps, zero);
        }
        let abs_return_bps = if return_bps.less_than(&zero) {
            return_bps.neg()
        } else {
            return_bps.copy()
        };
        if abs_return_bps.less_than(&self.config.threshold_bps) {
            return no_trade("move below threshold");
        }
        let side = if zero.less_or_equal(&return_bps) {
            ModelSide::Up
        } else {
            ModelSide::Down
        };
        let limit_price = match side {
            ModelSide::Up => &context.polymarket.up_price,
            ModelSide::Down => &context.polymarket.down_price,
        };
        let limit_price = match limit_price {
            Some(p) => p,
            None => {
                return no_trade("missing polymarket side price");
            },
        };
        let half = Decimal::from_i64(1).div(&Decimal::from_i64(2));
        let part = abs_return_bps.div(&Decimal::from_i64(10_000));
        assert(-0x1000_0000_0000_0000 <= part.scale() <= 0x1000_0004_0000_0000);
        let raw_confidence = half.add(&part);
        assert(-0x1000_0000_0000_0000 <= raw_confidence.scale() <= 0x1000_0004_0000_0000);
        let cap = Decimal::from_i64(99).div(&Decimal::from_i64(100));
        let confidence = if cap.less_than(&raw_confidence) {
            cap
        } else {
            raw_confidence
        };
        let max_size = if self.config.sizing.max_size.less_than(&context.portfolio.max_signal_size) {
            self.config.sizing.max_size.copy()
        } else {
            context.portfolio.max_signal_size.copy()
        };
        let sizing = SizingEngine::new(
            SizingConfig {
                bankroll: context.portfolio.bankroll.copy(),
                fraction: self.config.sizing.fraction.copy(),
                max_size,
                min_size: self.config.sizing.min_size.copy(),
            },
        );
        let suggested_size = match sizing.suggest_size(&confidence, limit_price) {
            Some(s) => s,
            None => {
                return no_trade("positive edge below minimum size");
            },
        };
        let input_snapshot_hash = context.input_snapshot_hash();
        let features = Json::Object(
            vec![
                (string_of("abs_return_bps"), Json::Str(decimal_string(&abs_return_bps))),
                (string_of("confidence"), Json::Str(decimal_string(&confidence))),
                (string_of("elapsed_ms"), Json::integer(context.window.elapsed_ms)),
                (string_of("input_snapshot_hash"), Json::Str(input_snapshot_hash)),
                (string_of("limit_price"), Json::Str(decimal_string(limit_price))),
                (string_of("market_key"), Json::string(context.market_key.as_str())),
                (string_of("model_key"), Json::string(BASELINE_DIRECTION_KEY)),
                (string_of("model_version"), Json::string(BASELINE_DIRECTION_VERSION)),
                (string_of("return_bps"), Json::Str(decimal_string(&return_bps))),
                (string_of("threshold_bps"), Json::Str(decimal_string(&self.config.threshold_bps))),
            ],
        );
        ModelDecision::candidate(
            ModelCandidate {
                side,
                confidence,
                limit_price: limit_price.copy(),
                suggested_size,
                ttl_ms: self.config.ttl_ms,
                reason: string_of("directional threshold crossed"),
                features,
            },
        )
    }
}

/// The key and version of the built-in model.
pub fn built_in_model_version() -> (r: (&'static str, &'static str))
    ensures
        r.0@ == "baseline_direction"@,
        r.1@ == "0.1.0"@,
{
    (BASELINE_DIRECTION_KEY, BASELINE_DIRECTION_VERSION)
}

} // verus!
