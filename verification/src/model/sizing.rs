//! Fractional-Kelly position sizing.
use vstd::prelude::*;

use crate::decimal::{
    aligned_difference, lemma_difference_at, lemma_parts_compare_at, lemma_parts_eq_at, lemma_pow10_positive,
    parts_eq, pow10, rounded_quotient, at, decimal_difference, decimal_difference_owned_ref, decimal_product_owned, decimal_quotient, parts_le, parts_lt, top, Decimal,
};

verus! {

/// Sizing parameters.
#[derive(Debug, Clone, PartialEq)]
pub struct SizingConfig {
    pub bankroll: Decimal,
    pub fraction: Decimal,
    pub max_size: Decimal,
    pub min_size: Decimal,
}

/// Suggests position sizes from a win probability and a contract price.
#[derive(Debug, Clone, PartialEq)]
pub struct SizingEngine {
    pub config: SizingConfig,
}

/// The scale magnitude up to which the price, bankroll and fraction of a
/// sizing are taken: `2^59`.
pub open spec fn sizing_scale_limit() -> int {
    0x800_0000_0000_0000
}

/// The scale magnitude up to which a win probability is taken: `5 * 2^58`.
pub open spec fn probability_scale_limit() -> int {
    0x1400_0000_0000_0000
}

/// The edge `p - c`.
pub open spec fn kelly_edge(p: (int, int), c: (int, int)) -> (int, int) {
    decimal_difference(p.0, p.1, c.0, c.1)
}

/// The Kelly fraction `edge / (1 - c)`.
pub open spec fn kelly_raw(p: (int, int), c: (int, int)) -> (int, int) {
    let one_minus = decimal_difference_owned_ref(1, 0, c.0, c.1);
    let e = kelly_edge(p, c);
    decimal_quotient(e.0, e.1, one_minus.0, one_minus.1)
}

/// The unclamped size `bankroll * raw * fraction`.
pub open spec fn kelly_size(bankroll: (int, int), fraction: (int, int), p: (int, int), c: (int, int)) -> (int, int) {
    let raw = kelly_raw(p, c);
    let b = decimal_product_owned(bankroll.0, bankroll.1, raw.0, raw.1);
    decimal_product_owned(b.0, b.1, fraction.0, fraction.1)
}

/// Probability and price both strictly between zero and one, and a positive edge.
pub open spec fn kelly_inputs_valid(p: (int, int), c: (int, int)) -> bool {
    &&& parts_lt((0, 0), p) && parts_lt(p, (1, 0))
    &&& parts_lt((0, 0), c) && parts_lt(c, (1, 0))
    &&& parts_lt((0, 0), kelly_edge(p, c))
}

/// What fractional-Kelly sizing suggests, as (mantissa, scale).
pub open spec fn kelly_suggestion(
    bankroll: (int, int),
    fraction: (int, int),
    max: (int, int),
    min: (int, int),
    p: (int, int),
    c: (int, int),
) -> Option<(int, int)> {
    let size = kelly_size(bankroll, fraction, p, c);
    if kelly_inputs_valid(p, c) && !parts_lt(size, min) {
        if parts_lt(max, size) {
            Some(max)
        } else {
            Some(size)
        }
    } else {
        None
    }
}

/// `size` is `bankroll * q * fraction` in value for a quotient `q` of the edge
/// `p - c` by `1 - c` rounded at its own scale.
pub open spec fn kelly_size_of(
    size: (int, int),
    bankroll: (int, int),
    fraction: (int, int),
    p: (int, int),
    c: (int, int),
) -> bool {
    exists|q: (int, int)|
        rounded_quotient(q, aligned_difference(p.0, p.1, c.0, c.1), aligned_difference(1, 0, c.0, c.1))
            && #[trigger] parts_eq(size, (bankroll.0 * q.0 * fraction.0, bankroll.1 + q.1 + fraction.1))
}

/// What `suggest_size` gives for a probability `pr` and a price `cp` under
/// `config`.
pub open spec fn sizing_outcome(config: SizingConfig, pr: Decimal, cp: Decimal, r: Option<Decimal>) -> bool {
    let p = pr.parts();
    let c = cp.parts();
    let size = kelly_size(config.bankroll.parts(), config.fraction.parts(), p, c);
    let min = config.min_size.parts();
    let max = config.max_size.parts();
    &&& r.is_some() <==> kelly_inputs_valid(p, c) && !parts_lt(size, min)
    &&& r.is_some() && parts_lt(max, size) ==> r.unwrap().same(config.max_size)
    &&& r.is_some() && !parts_lt(max, size) ==> r.unwrap().parts() == size
    &&& r.is_some() ==> parts_le(r.unwrap().parts(), max)
    &&& r.is_some() == kelly_suggestion(config.bankroll.parts(), config.fraction.parts(), max, min, p, c).is_some()
    &&& r.is_some() ==> r.unwrap().parts() == kelly_suggestion(
        config.bankroll.parts(),
        config.fraction.parts(),
        max,
        min,
        p,
        c,
    ).unwrap()
    &&& kelly_inputs_valid(p, c) ==> kelly_size_of(size, config.bankroll.parts(), config.fraction.parts(), p, c)
}

/// Fractional Kelly: for a win probability `p` and a price `c` strictly
/// between zero and one with `p > c`, the size is
/// `bankroll * fraction * (p - c) / (1 - c)`, the quotient rounded at its own
/// scale; it is suggested exactly when it is not below the minimum, and is
/// capped at the maximum.
pub proof fn kelly_law(config: SizingConfig, p: Decimal, c: Decimal, r: Option<Decimal>)
    requires
        sizing_outcome(config, p, c, r),
        parts_lt((0, 0), p.parts()),
        parts_lt(p.parts(), (1, 0)),
        parts_lt((0, 0), c.parts()),
        parts_lt(c.parts(), (1, 0)),
        parts_lt(c.parts(), p.parts()),
    ensures
        exists|q: (int, int)|
            #![trigger rounded_quotient(
                q,
                aligned_difference(p.mantissa(), p.scale(), c.mantissa(), c.scale()),
                aligned_difference(1, 0, c.mantissa(), c.scale()),
            )]
            {
                let b = config.bankroll.parts();
                let f = config.fraction.parts();
                let s = (b.0 * q.0 * f.0, b.1 + q.1 + f.1);
                &&& rounded_quotient(
                    q,
                    aligned_difference(p.mantissa(), p.scale(), c.mantissa(), c.scale()),
                    aligned_difference(1, 0, c.mantissa(), c.scale()),
                )
                &&& (r is Some <==> !parts_lt(s, config.min_size.parts()))
                &&& r is Some ==> parts_le(r.unwrap().parts(), config.max_size.parts())
                &&& r is Some && parts_lt(config.max_size.parts(), s) ==> r.unwrap().same(config.max_size)
                &&& r is Some && !parts_lt(config.max_size.parts(), s) ==> parts_eq(r.unwrap().parts(), s)
            },
{
    let pp = p.parts();
    let cc = c.parts();
    let b = config.bankroll.parts();
    let f = config.fraction.parts();
    let min = config.min_size.parts();
    let max = config.max_size.parts();
    // The edge is positive.
    let t = top(pp.1, cc.1);
    lemma_difference_at(pp.0, pp.1, cc.0, cc.1, t);
    lemma_parts_compare_at(cc, pp, t);
    let e = aligned_difference(pp.0, pp.1, cc.0, cc.1);
    lemma_parts_compare_at((0, 0), e, top(0, e.1));
    lemma_pow10_positive((top(0, e.1) - e.1) as nat);
    assert(e.0 > 0) by {
        assert(at(e.0, e.1, t) == e.0 * pow10(0));
    }
    assert(at(0, 0, top(0, e.1)) == 0);
    assert(e.0 * pow10((top(0, e.1) - e.1) as nat) > 0) by (nonlinear_arith)
        requires
            e.0 > 0,
            pow10((top(0, e.1) - e.1) as nat) > 0,
    ;
    assert(kelly_inputs_valid(pp, cc));
    let size = kelly_size(b, f, pp, cc);
    assert(kelly_size_of(size, b, f, pp, cc));
    let q = choose|q: (int, int)|
        rounded_quotient(q, aligned_difference(pp.0, pp.1, cc.0, cc.1), aligned_difference(1, 0, cc.0, cc.1))
            && #[trigger] parts_eq(size, (b.0 * q.0 * f.0, b.1 + q.1 + f.1));
    let s = (b.0 * q.0 * f.0, b.1 + q.1 + f.1);
    lemma_parts_eq_compare(size, s, min);
    lemma_parts_eq_compare(size, s, max);
    if r is Some && !parts_lt(max, s) {
        assert(r.unwrap().parts() == size);
    }
}

/// Numbers equal in value compare the same way with a third.
proof fn lemma_parts_eq_compare(a: (int, int), b: (int, int), m: (int, int))
    requires
        parts_eq(a, b),
    ensures
        parts_lt(a, m) == parts_lt(b, m),
        parts_lt(m, a) == parts_lt(m, b),
{
    let t = top(top(a.1, b.1), m.1);
    lemma_parts_eq_at(a, b, t);
    lemma_parts_compare_at(a, m, t);
    lemma_parts_compare_at(b, m, t);
    lemma_parts_compare_at(m, a, t);
    lemma_parts_compare_at(m, b, t);
}

impl SizingEngine {
    /// An engine with the given parameters.
    pub fn new(config: SizingConfig) -> (r: SizingEngine)
        ensures
            r.config == config,
    {
        SizingEngine { config }
    }

    /// Half-Kelly sizing for a bankroll, sizes between 0.5 and 1.
    pub fn default_for_bankroll(bankroll: Decimal) -> (r: SizingEngine)
        ensures
            r.config.bankroll == bankroll,
            r.config.fraction.parts() == decimal_quotient(1, 0, 2, 0),
            r.config.max_size.parts() == (1int, 0int),
            r.config.min_size.parts() == decimal_quotient(1, 0, 2, 0),
    {
        let one = Decimal::from_i64(1);
        let two = Decimal::from_i64(2);
        let half = one.div(&two);
        let half2 = one.div(&two);
        SizingEngine::new(
            SizingConfig { bankroll, fraction: half, max_size: Decimal::from_i64(1), min_size: half2 },
        )
    }

    /// The fractional-Kelly size for buying a contract at `contract_price` with
    /// `win_probability` of winning: nothing when either lies outside (0, 1), when
    /// the edge is not positive or when the size is below the minimum; the
    /// maximum when the size exceeds it. The edge, the quotient by `1 - c` and
    /// the two products add up the scales of their operands (and the quotient
    /// grows by the divisor's digits and the precision), so the scales of the
    /// price, bankroll and fraction are taken up to `2^59` and that of the
    /// probability up to `5 * 2^58`: together they stay within the decimal
    /// scale limit of `2^62 - 1`.
    pub fn suggest_size(&self, win_probability: &Decimal, contract_price: &Decimal) -> (r: Option<Decimal>)
        requires
            -probability_scale_limit() <= win_probability.scale() <= probability_scale_limit(),
            contract_price.within(sizing_scale_limit()),
            -sizing_scale_limit() <= self.config.bankroll.scale() <= sizing_scale_limit(),
            -sizing_scale_limit() <= self.config.fraction.scale() <= sizing_scale_limit(),
        ensures
            sizing_outcome(self.config, *win_probability, *contract_price, r),
    {
        let zero = Decimal::from_i64(0);
        let one = Decimal::from_i64(1);
        if win_probability.less_or_equal(&zero) || one.less_or_equal(win_probability) {
            return None;
        }
        if contract_price.less_or_equal(&zero) || one.less_or_equal(contract_price) {
            return None;
        }
        let edge = win_probability.sub(contract_price);
        if edge.less_or_equal(&zero) {
            return None;
        }
        let one_minus = one.sub_owned_ref(contract_price);
        proof {
            let t0 = top(top(one.scale(), one_minus.scale()), contract_price.scale());
            assert(one.is_sum_of(one_minus, *contract_price));
            crate::decimal::lemma_compare_at(*contract_price, one, t0);
            if one_minus.mantissa() == 0 {
                assert(at(one_minus.mantissa(), one_minus.scale(), t0) == 0);
            }
        }
        let raw_fraction = edge.div(&one_minus);
        let scaled = self.config.bankroll.mul_owned(&raw_fraction);
        let size = scaled.mul_owned(&self.config.fraction);
        proof {
            crate::decimal::lemma_compare_zero(*contract_price, zero);
            crate::decimal::lemma_product_chain(
                size,
                scaled,
                self.config.fraction,
                self.config.bankroll,
                raw_fraction,
            );
            assert(edge.parts() == aligned_difference(
                win_probability.mantissa(),
                win_probability.scale(),
                contract_price.mantissa(),
                contract_price.scale(),
            ));
            assert(one_minus.parts() == aligned_difference(
                1,
                0,
                contract_price.mantissa(),
                contract_price.scale(),
            ));
            assert(rounded_quotient(raw_fraction.parts(), edge.parts(), one_minus.parts()));
            assert(kelly_size_of(
                size.parts(),
                self.config.bankroll.parts(),
                self.config.fraction.parts(),
                win_probability.parts(),
                contract_price.parts(),
            ));
        }
        if size.less_than(&self.config.min_size) {
            return None;
        }
        if self.config.max_size.less_than(&size) {
            return Some(self.config.max_size.copy());
        }
        Some(size)
    }
}

} // verus!
