//! Arbitrary-precision decimal numbers: a sign, little-endian decimal digits and
//! a scale, so that the value is `mantissa * 10^(-scale)`. Arithmetic that has a
//! short exact statement (negation, comparison by value, constants) is proved
//! here; sums, differences, products, quotients, parsing and display are
//! computed by the `bigdecimal` crate.
use vstd::prelude::*;

use bigdecimal::num_bigint::{BigInt, Sign};
use bigdecimal::BigDecimal;

use crate::text::push_str;

verus! {

#[verifier::external_type_specification]
#[verifier::external_body]
pub struct ExBigDecimal(BigDecimal);

/// `10^n`.
pub open spec fn pow10(n: nat) -> int
    decreases n,
{
    if n == 0 {
        1
    } else {
        10 * pow10((n - 1) as nat)
    }
}

/// The mantissa `m` of a number with scale `s`, rewritten for the finer scale `t >= s`.
pub open spec fn at(m: int, s: int, t: int) -> int {
    m * pow10((t - s) as nat)
}

/// The magnitude of an integer.
pub open spec fn magnitude(x: int) -> int {
    if x < 0 {
        -x
    } else {
        x
    }
}

/// `q` is the quotient `a / b` rounded at its own scale: `q * 10^(-sq)` is
/// within one unit of its last digit of the exact quotient, i.e.
/// `|qm * bm - am * 10^e| < |bm|` for `e = sq - sa + sb >= 0`; a zero dividend
/// comes back as it is; otherwise the quotient is not zero and has the sign of
/// the exact one.
pub open spec fn rounded_quotient(q: (int, int), a: (int, int), b: (int, int)) -> bool {
    if a.0 == 0 {
        q == a
    } else {
        let e = q.1 - a.1 + b.1;
        &&& e >= 0
        &&& magnitude(q.0 * b.0 - a.0 * pow10(e as nat)) < magnitude(b.0)
        &&& q.0 != 0
        &&& (q.0 > 0 <==> (a.0 > 0) == (b.0 > 0))
    }
}

/// The smaller of two integers.
pub open spec fn least(a: int, b: int) -> int {
    if a <= b {
        a
    } else {
        b
    }
}

/// The larger of two integers.
pub open spec fn top(a: int, b: int) -> int {
    if a >= b {
        a
    } else {
        b
    }
}

/// `a < b` for numbers given as (mantissa, scale).
pub open spec fn parts_lt(a: (int, int), b: (int, int)) -> bool {
    at(a.0, a.1, top(a.1, b.1)) < at(b.0, b.1, top(a.1, b.1))
}

/// `a == b` in value for numbers given as (mantissa, scale).
pub open spec fn parts_eq(a: (int, int), b: (int, int)) -> bool {
    at(a.0, a.1, top(a.1, b.1)) == at(b.0, b.1, top(a.1, b.1))
}

/// `a <= b` for numbers given as (mantissa, scale).
pub open spec fn parts_le(a: (int, int), b: (int, int)) -> bool {
    at(a.0, a.1, top(a.1, b.1)) <= at(b.0, b.1, top(a.1, b.1))
}

/// The value of little-endian decimal digits.
pub open spec fn le_value(d: Seq<u8>) -> nat
    decreases d.len(),
{
    if d.len() == 0 {
        0
    } else {
        (d[0] as nat) + 10 * le_value(d.drop_first())
    }
}

/// The largest scale magnitude a `Decimal` holds. Two such scales differ by
/// less than `i64::MAX`, so aligning two decimals for a sum or a difference
/// never overflows the scale.
pub const DECIMAL_SCALE_LIMIT: i64 = 4611686018427387903;

/// How many digits past the first a `BigDecimal` quotient may grow by: its
/// build-time precision, which is a `u32`.
pub open spec fn quotient_digit_allowance() -> int {
    0x1_0000_0000
}

/// A decimal number `mantissa * 10^(-scale)`.
#[derive(Debug)]
pub struct Decimal {
    negative: bool,
    digits: Vec<u8>,
    scale: i64,
}

/// The mantissa and scale of a `BigDecimal` sum: both mantissas aligned at the
/// larger scale and added.
pub open spec fn decimal_sum(am: int, ascale: int, bm: int, bscale: int) -> (int, int) {
    let t = top(ascale, bscale);
    (at(am, ascale, t) + at(bm, bscale, t), t)
}

/// The mantissa and scale of `lhs += rhs` on `BigDecimal`s: a zero right side
/// leaves the left as it is, a zero left side takes the right, otherwise both
/// are aligned at the larger scale and added.
pub open spec fn decimal_sum_assign(am: int, ascale: int, bm: int, bscale: int) -> (int, int) {
    if bm == 0 {
        (am, ascale)
    } else if am == 0 {
        (bm, bscale)
    } else {
        decimal_sum(am, ascale, bm, bscale)
    }
}

/// Both mantissas aligned at the larger scale and subtracted.
pub open spec fn aligned_difference(am: int, ascale: int, bm: int, bscale: int) -> (int, int) {
    let t = top(ascale, bscale);
    (at(am, ascale, t) - at(bm, bscale, t), t)
}

/// The mantissa and scale of `&lhs - &rhs` on `BigDecimal`s: both sides
/// aligned at the larger scale (a zero side too) and subtracted.
pub open spec fn decimal_difference(am: int, ascale: int, bm: int, bscale: int) -> (int, int) {
    aligned_difference(am, ascale, bm, bscale)
}

/// The mantissa and scale of a `BigDecimal` difference that keeps the left
/// side when the right is zero and negates the right when the left is zero,
/// and otherwise aligns both at the larger scale: `lhs - rhs` on owned values
/// and `lhs - &rhs` both do so.
pub open spec fn difference_keeping_zeros(am: int, ascale: int, bm: int, bscale: int) -> (int, int) {
    if bm == 0 {
        (am, ascale)
    } else if am == 0 {
        (-bm, bscale)
    } else {
        aligned_difference(am, ascale, bm, bscale)
    }
}

/// The mantissa and scale of `lhs - rhs` on owned `BigDecimal`s.
pub open spec fn decimal_difference_owned(am: int, ascale: int, bm: int, bscale: int) -> (int, int) {
    difference_keeping_zeros(am, ascale, bm, bscale)
}

/// The mantissa and scale of `lhs - &rhs` on `BigDecimal`s.
pub open spec fn decimal_difference_owned_ref(am: int, ascale: int, bm: int, bscale: int) -> (int, int) {
    difference_keeping_zeros(am, ascale, bm, bscale)
}

/// Name for the mantissa and scale of `&lhs * &rhs` on `BigDecimal`s.
pub uninterp spec fn decimal_product(am: int, ascale: int, bm: int, bscale: int) -> (int, int);

/// Name for the mantissa and scale of `lhs * rhs` on owned `BigDecimal`s.
pub uninterp spec fn decimal_product_owned(am: int, ascale: int, bm: int, bscale: int) -> (int, int);

/// Name for the mantissa and scale of a `BigDecimal` quotient.
pub uninterp spec fn decimal_quotient(am: int, ascale: int, bm: int, bscale: int) -> (int, int);

/// Name for the mantissa and scale that `BigDecimal::from_str` reads from a text.
pub uninterp spec fn decimal_parse(text: Seq<char>) -> Option<(int, int)>;

/// The (mantissa, scale) of a sign and little-endian digits with a scale.
pub open spec fn digits_parts(negative: bool, digits: Seq<u8>, scale: int) -> (int, int) {
    (if negative {
        -(le_value(digits) as int)
    } else {
        le_value(digits) as int
    }, scale)
}

/// What `Decimal::parse` reads from a text: the parse of `BigDecimal::from_str`,
/// when its scale lies within the limit.
pub open spec fn parsed_decimal(text: Seq<char>) -> Option<(int, int)> {
    match decimal_parse(text) {
        Some(p) => if -DECIMAL_SCALE_LIMIT <= p.1 <= DECIMAL_SCALE_LIMIT {
            Some(p)
        } else {
            None
        },
        None => None,
    }
}

/// Name for the text that `BigDecimal`'s `Display` writes.
pub uninterp spec fn decimal_text(m: int, s: int) -> Seq<char>;

impl Decimal {
    #[verifier::type_invariant]
    spec fn digits_in_range(self) -> bool {
        &&& forall|i: int| 0 <= i < self.digits@.len() ==> self.digits@[i] < 10
        &&& -DECIMAL_SCALE_LIMIT <= self.scale <= DECIMAL_SCALE_LIMIT
    }

    /// How many decimal digits hold the mantissa.
    pub closed spec fn digit_count(self) -> nat {
        self.digits@.len()
    }

    /// Scale within `[-k, k]`, and a mantissa of at most `2^32` digits (one
    /// that fits in memory).
    pub open spec fn within(self, k: int) -> bool {
        -k <= self.scale() <= k && self.digit_count() <= 0x1_0000_0000
    }

    /// `&self * &other` keeps its scale within the limit, whichever way
    /// `BigDecimal` computes it.
    pub open spec fn can_multiply(self, other: Decimal) -> bool {
        &&& -DECIMAL_SCALE_LIMIT <= self.scale() + other.scale() <= DECIMAL_SCALE_LIMIT
        &&& -DECIMAL_SCALE_LIMIT <= self.scale() - self.digit_count()
        &&& -DECIMAL_SCALE_LIMIT <= other.scale() - other.digit_count()
    }

    /// The signed mantissa.
    pub closed spec fn mantissa(self) -> int {
        if self.negative {
            -(le_value(self.digits@) as int)
        } else {
            le_value(self.digits@) as int
        }
    }

    /// The scale: the value is `mantissa * 10^(-scale)`.
    pub closed spec fn scale(self) -> int {
        self.scale as int
    }

    /// Mantissa and scale as a pair.
    pub open spec fn parts(self) -> (int, int) {
        (self.mantissa(), self.scale())
    }

    /// Same mantissa and scale.
    pub open spec fn same(self, other: Decimal) -> bool {
        self.mantissa() == other.mantissa() && self.scale() == other.scale()
    }

    /// The mantissa rewritten at the common scale of `self` and `other`.
    pub open spec fn at_common(self, other: Decimal) -> int {
        at(self.mantissa(), self.scale(), top(self.scale(), other.scale()))
    }

    /// Strictly smaller in value.
    pub open spec fn lt(self, other: Decimal) -> bool {
        self.at_common(other) < other.at_common(self)
    }

    /// Smaller or equal in value.
    pub open spec fn le(self, other: Decimal) -> bool {
        self.at_common(other) <= other.at_common(self)
    }

    /// Equal in value (`1.5` and `1.50` are equal).
    pub open spec fn eqv(self, other: Decimal) -> bool {
        self.at_common(other) == other.at_common(self)
    }

    /// Value is zero.
    pub open spec fn is_zero(self) -> bool {
        self.mantissa() == 0
    }

    /// Value is below zero.
    pub open spec fn is_negative(self) -> bool {
        self.mantissa() < 0
    }

    /// The scale lies between the scales of `a` and `b`.
    pub open spec fn scale_between(self, a: Decimal, b: Decimal) -> bool {
        least(a.scale(), b.scale()) <= self.scale() <= top(a.scale(), b.scale())
    }

    /// The value of `self` equals the value of `a + b`.
    pub open spec fn is_sum_of(self, a: Decimal, b: Decimal) -> bool {
        let t = top(top(self.scale(), a.scale()), b.scale());
        at(self.mantissa(), self.scale(), t) == at(a.mantissa(), a.scale(), t) + at(
            b.mantissa(),
            b.scale(),
            t,
        )
    }

    /// The value of `self` equals the value of `a * b`.
    pub open spec fn is_product_of(self, a: Decimal, b: Decimal) -> bool {
        let t = top(self.scale(), a.scale() + b.scale());
        at(self.mantissa(), self.scale(), t) == at(
            a.mantissa() * b.mantissa(),
            a.scale() + b.scale(),
            t,
        )
    }

    /// The value of `self` equals the value of `-a`.
    pub open spec fn is_negation_of(self, a: Decimal) -> bool {
        self.mantissa() == -a.mantissa() && self.scale() == a.scale()
    }

    /// The integer `n` with scale zero, as `BigDecimal::from(n)` gives.
    pub fn from_i64(n: i64) -> (r: Decimal)
        ensures
            r.mantissa() == n as int,
            r.scale() == 0,
            r.digit_count() <= 19,
    {
        let negative = n < 0;
        let mut m: u64 = if n == i64::MIN {
            (i64::MAX as u64) + 1
        } else if n < 0 {
            (-n) as u64
        } else {
            n as u64
        };
        let ghost total = m as nat;
        let mut digits: Vec<u8> = Vec::new();
        let ghost mut scale_done: nat = 1;
        while m > 0
            invariant
                forall|i: int| 0 <= i < digits@.len() ==> digits@[i] < 10,
                scale_done == pow10(digits@.len()),
                total == le_value(digits@) + scale_done * (m as nat),
                total <= 0x8000_0000_0000_0000,
                digits@.len() <= 19,
            decreases m,
        {
            let d = (m % 10) as u8;
            proof {
                assert(scale_done <= scale_done * (m as nat)) by (nonlinear_arith)
                    requires
                        m >= 1,
                ;
                if digits@.len() >= 19 {
                    lemma_pow10_at_least_19(digits@.len());
                }
                lemma_le_value_push(digits@, d);
                assert(scale_done * (m as nat) == scale_done * (d as nat) + (scale_done * 10) * ((
                m / 10) as nat)) by (nonlinear_arith)
                    requires
                        d == m % 10,
                ;
            }
            digits.push(d);
            m = m / 10;
            proof {
                scale_done = scale_done * 10;
            }
        }
        Decimal { negative, digits, scale: 0 }
    }

    /// `-self`, as `Neg` for `BigDecimal` gives: the mantissa negated, the scale kept.
    pub fn neg(&self) -> (r: Decimal)
        ensures
            r.is_negation_of(*self),
    {
        proof {
            use_type_invariant(self);
        }
        Decimal { negative: !self.negative, digits: self.digits.clone(), scale: self.scale }
    }

    /// Whether the scale lies within `[-k, k]` and at most `2^32` digits hold
    /// the mantissa.
    pub fn is_within(&self, k: i64) -> (r: bool)
        requires
            k >= 0,
        ensures
            r == self.within(k as int),
    {
        -k <= self.scale && self.scale <= k && (self.digits.len() as u64) <= 0x1_0000_0000
    }

    /// Whether `&self * &other` keeps its scale within the limit.
    pub fn fits_product(&self, other: &Decimal) -> (r: bool)
        ensures
            r == self.can_multiply(*other),
    {
        let lo: i128 = -4611686018427387903;
        let hi: i128 = 4611686018427387903;
        let a: i128 = self.scale as i128;
        let b: i128 = other.scale as i128;
        let da: i128 = self.digits.len() as i128;
        let db: i128 = other.digits.len() as i128;
        lo <= a + b && a + b <= hi && lo <= a - da && lo <= b - db
    }

    /// A copy with the same mantissa and scale.
    pub fn copy(&self) -> (r: Decimal)
        ensures
            r.same(*self),
    {
        proof {
            use_type_invariant(self);
        }
        Decimal { negative: self.negative, digits: self.digits.clone(), scale: self.scale }
    }

    /// Value comparison `self < other`.
    pub fn less_than(&self, other: &Decimal) -> (r: bool)
        ensures
            r == self.lt(*other),
    {
        decimal_lt(self, other)
    }

    /// Value comparison `self <= other`.
    pub fn less_or_equal(&self, other: &Decimal) -> (r: bool)
        ensures
            r == self.le(*other),
    {
        let lt = decimal_lt(self, other);
        let eq = decimal_eq(self, other);
        lt || eq
    }

    /// Value equality.
    pub fn equals(&self, other: &Decimal) -> (r: bool)
        ensures
            r == self.eqv(*other),
    {
        decimal_eq(self, other)
    }

    /// `self + other`.
    pub fn add(&self, other: &Decimal) -> (r: Decimal)
        ensures
            r.is_sum_of(*self, *other),
            r.scale_between(*self, *other),
            r.parts() == decimal_sum(self.mantissa(), self.scale(), other.mantissa(), other.scale()),
    {
        decimal_add(self, other)
    }

    /// `self += other`.
    pub fn add_assign(&mut self, other: &Decimal)
        ensures
            final(self).is_sum_of(*old(self), *other),
            final(self).scale_between(*old(self), *other),
            final(self).parts() == decimal_sum_assign(
                old(self).mantissa(),
                old(self).scale(),
                other.mantissa(),
                other.scale(),
            ),
    {
        *self = decimal_add_assign(self, other);
    }

    /// `&self - &other`.
    pub fn sub(&self, other: &Decimal) -> (r: Decimal)
        ensures
            self.is_sum_of(r, *other),
            r.scale_between(*self, *other),
            r.parts() == decimal_difference(
                self.mantissa(),
                self.scale(),
                other.mantissa(),
                other.scale(),
            ),
    {
        decimal_sub(self, other)
    }

    /// `self - other` on owned values.
    pub fn sub_owned(&self, other: &Decimal) -> (r: Decimal)
        ensures
            self.is_sum_of(r, *other),
            r.scale_between(*self, *other),
            r.parts() == decimal_difference_owned(
                self.mantissa(),
                self.scale(),
                other.mantissa(),
                other.scale(),
            ),
    {
        decimal_sub_owned(self, other)
    }

    /// `self - &other`, with `self` owned.
    pub fn sub_owned_ref(&self, other: &Decimal) -> (r: Decimal)
        ensures
            self.is_sum_of(r, *other),
            r.scale_between(*self, *other),
            r.digit_count() <= top(
                self.digit_count() + top(self.scale(), other.scale()) - self.scale(),
                other.digit_count() + top(self.scale(), other.scale()) - other.scale(),
            ) + 1,
            r.parts() == decimal_difference_owned_ref(
                self.mantissa(),
                self.scale(),
                other.mantissa(),
                other.scale(),
            ),
    {
        decimal_sub_owned_ref(self, other)
    }

    /// `&self * &other`.
    pub fn mul(&self, other: &Decimal) -> (r: Decimal)
        requires
            self.can_multiply(*other),
        ensures
            r.is_product_of(*self, *other),
            r.parts() == decimal_product(
                self.mantissa(),
                self.scale(),
                other.mantissa(),
                other.scale(),
            ),
    {
        decimal_mul(self, other)
    }

    /// `self * other` on owned values.
    pub fn mul_owned(&self, other: &Decimal) -> (r: Decimal)
        requires
            -DECIMAL_SCALE_LIMIT <= self.scale() + other.scale() <= DECIMAL_SCALE_LIMIT,
        ensures
            r.is_product_of(*self, *other),
            r.scale() == self.scale() + other.scale() || r.scale() == self.scale() || r.scale()
                == other.scale(),
            r.parts() == decimal_product_owned(
                self.mantissa(),
                self.scale(),
                other.mantissa(),
                other.scale(),
            ),
    {
        decimal_mul_owned(self, other)
    }

    /// `self / other`, for a divisor that is not zero and a quotient whose
    /// scale stays within the limit.
    pub fn div(&self, other: &Decimal) -> (r: Decimal)
        requires
            !other.is_zero(),
            -DECIMAL_SCALE_LIMIT <= self.scale() - other.scale(),
            self.scale() - other.scale() + other.digit_count() + quotient_digit_allowance()
                <= DECIMAL_SCALE_LIMIT,
        ensures
            r.scale() == self.scale() || self.scale() - other.scale() <= r.scale() <= self.scale()
                - other.scale() + other.digit_count() + quotient_digit_allowance(),
            rounded_quotient(r.parts(), self.parts(), other.parts()),
            r.parts() == decimal_quotient(
                self.mantissa(),
                self.scale(),
                other.mantissa(),
                other.scale(),
            ),
    {
        decimal_div(self, other)
    }

    /// Parses a decimal text as `BigDecimal::from_str` does; a text whose
    /// scale lies beyond the limit is refused.
    pub fn parse(text: &str) -> (r: Option<Decimal>)
        ensures
            r.is_some() == parsed_decimal(text@).is_some(),
            r.is_some() ==> r.unwrap().parts() == parsed_decimal(text@).unwrap(),
    {
        match decimal_from_str(text) {
            Some(parts) => {
                let (negative, digits, scale) = parts;
                if -DECIMAL_SCALE_LIMIT <= scale && scale <= DECIMAL_SCALE_LIMIT {
                    Some(Decimal { negative, digits, scale })
                } else {
                    None
                }
            },
            None => None,
        }
    }

    /// The text that `BigDecimal`'s `Display` writes.
    pub fn to_text(&self) -> (r: String)
        ensures
            r@ == decimal_text(self.mantissa(), self.scale()),
    {
        decimal_to_string(self)
    }
}

proof fn lemma_le_value_push(d: Seq<u8>, x: u8)
    ensures
        le_value(d.push(x)) == le_value(d) + pow10(d.len()) * (x as nat),
    decreases d.len(),
{
    if d.len() == 0 {
        assert(d.push(x).drop_first() =~= Seq::<u8>::empty());
        assert(le_value(Seq::<u8>::empty()) == 0);
        assert(le_value(d.push(x)) == x as nat);
        assert(le_value(d) == 0);
        assert(pow10(d.len()) == 1);
        assert(le_value(d.push(x)) == le_value(d) + pow10(d.len()) * (x as nat));
    } else {
        lemma_le_value_push(d.drop_first(), x);
        assert(d.push(x).drop_first() =~= d.drop_first().push(x));
        let p = pow10((d.len() - 1) as nat);
        assert(d.push(x)[0] == d[0]);
        assert(pow10(d.len()) == 10 * p);
        assert(10 * (le_value(d.drop_first()) + p * (x as nat)) == 10 * le_value(d.drop_first())
            + (10 * p) * (x as nat)) by (nonlinear_arith);
        assert(le_value(d.push(x)) == (d[0] as nat) + 10 * le_value(d.push(x).drop_first()));
        assert(le_value(d) == (d[0] as nat) + 10 * le_value(d.drop_first()));
        assert(le_value(d.push(x)) == le_value(d) + pow10(d.len()) * (x as nat));
    }
}

/// `10^n` exceeds `2^63` from `n = 19` on.
proof fn lemma_pow10_at_least_19(n: nat)
    requires
        n >= 19,
    ensures
        pow10(n) > 0x8000_0000_0000_0000,
    decreases n,
{
    if n == 19 {
        reveal_with_fuel(pow10, 20);
        assert(pow10(19) == 10_000_000_000_000_000_000);
    } else {
        lemma_pow10_at_least_19((n - 1) as nat);
    }
}

/// `10^n` is positive.
pub proof fn lemma_pow10_positive(n: nat)
    ensures
        pow10(n) > 0,
    decreases n,
{
    if n > 0 {
        lemma_pow10_positive((n - 1) as nat);
    }
}

/// `10^(a+b) == 10^a * 10^b`.
pub proof fn lemma_pow10_add(a: nat, b: nat)
    ensures
        pow10(a + b) == pow10(a) * pow10(b),
    decreases a,
{
    if a > 0 {
        lemma_pow10_add((a - 1) as nat, b);
        assert(pow10(a + b) == 10 * pow10((a - 1 + b) as nat));
        assert(10 * (pow10((a - 1) as nat) * pow10(b)) == (10 * pow10((a - 1) as nat)) * pow10(b))
            by (nonlinear_arith);
    }
}

/// Rewriting at a finer scale multiplies by a power of ten.
pub proof fn lemma_at_finer(m: int, s: int, t1: int, t2: int)
    requires
        s <= t1 <= t2,
    ensures
        at(m, s, t2) == at(m, s, t1) * pow10((t2 - t1) as nat),
{
    lemma_pow10_add((t1 - s) as nat, (t2 - t1) as nat);
    assert(((t1 - s) as nat + (t2 - t1) as nat) == (t2 - s) as nat);
    let p = pow10((t1 - s) as nat);
    let q = pow10((t2 - t1) as nat);
    assert(m * (p * q) == (m * p) * q) by (nonlinear_arith);
}

/// A sum of two mantissas at one scale, rewritten at a finer scale, is the sum
/// of each rewritten.
pub proof fn lemma_at_linear(x: int, y: int, s: int, t: int)
    requires
        s <= t,
    ensures
        at(x + y, s, t) == at(x, s, t) + at(y, s, t),
        at(x - y, s, t) == at(x, s, t) - at(y, s, t),
        at(0, s, t) == 0,
{
    let p = pow10((t - s) as nat);
    assert((x + y) * p == x * p + y * p) by (nonlinear_arith);
    assert((x - y) * p == x * p - y * p) by (nonlinear_arith);
}

/// At any scale as fine as both operands, `lhs += rhs` adds the values, and its
/// scale is no finer.
pub proof fn lemma_sum_assign_at(am: int, ascale: int, bm: int, bscale: int, t: int)
    requires
        ascale <= t,
        bscale <= t,
    ensures
        decimal_sum_assign(am, ascale, bm, bscale).1 <= t,
        at(decimal_sum_assign(am, ascale, bm, bscale).0, decimal_sum_assign(am, ascale, bm, bscale).1, t)
            == at(am, ascale, t) + at(bm, bscale, t),
{
    lemma_at_linear(0, 0, bscale, t);
    lemma_at_linear(0, 0, ascale, t);
    if bm != 0 && am != 0 {
        let u = top(ascale, bscale);
        lemma_at_finer(am, ascale, u, t);
        lemma_at_finer(bm, bscale, u, t);
        lemma_at_linear(at(am, ascale, u), at(bm, bscale, u), u, t);
        lemma_at_finer(at(am, ascale, u) + at(bm, bscale, u), u, u, t);
        assert(pow10(0) == 1);
    }
}

/// At any scale as fine as both operands, the aligned difference subtracts the
/// values, and its scale is no finer.
pub proof fn lemma_difference_at(am: int, ascale: int, bm: int, bscale: int, t: int)
    requires
        ascale <= t,
        bscale <= t,
    ensures
        aligned_difference(am, ascale, bm, bscale).1 <= t,
        at(aligned_difference(am, ascale, bm, bscale).0, aligned_difference(am, ascale, bm, bscale).1, t)
            == at(am, ascale, t) - at(bm, bscale, t),
{
    let u = top(ascale, bscale);
    lemma_at_finer(am, ascale, u, t);
    lemma_at_finer(bm, bscale, u, t);
    lemma_at_linear(at(am, ascale, u), at(bm, bscale, u), u, t);
}

/// Lifts an equation between two numbers at one scale to any finer scale.
pub proof fn lemma_eq_finer(am: int, ascale: int, bm: int, bscale: int, t1: int, t2: int)
    requires
        ascale <= t1,
        bscale <= t1,
        t1 <= t2,
        at(am, ascale, t1) == at(bm, bscale, t1),
    ensures
        at(am, ascale, t2) == at(bm, bscale, t2),
{
    lemma_at_finer(am, ascale, t1, t2);
    lemma_at_finer(bm, bscale, t1, t2);
}

/// Equal values compare equal at every scale as fine as both.
pub proof fn lemma_parts_eq_at(a: (int, int), b: (int, int), t: int)
    requires
        a.1 <= t,
        b.1 <= t,
    ensures
        parts_eq(a, b) <==> at(a.0, a.1, t) == at(b.0, b.1, t),
{
    let c = top(a.1, b.1);
    lemma_at_finer(a.0, a.1, c, t);
    lemma_at_finer(b.0, b.1, c, t);
    let p = pow10((t - c) as nat);
    lemma_pow10_positive((t - c) as nat);
    let x = at(a.0, a.1, c);
    let y = at(b.0, b.1, c);
    assert(x == y <==> x * p == y * p) by (nonlinear_arith)
        requires
            p > 0,
    ;
}

/// A product of a product: when `x` is `b * q` and `s` is `x * f` in value, `s`
/// is `b * q * f` in value.
pub proof fn lemma_product_chain(s: Decimal, x: Decimal, f: Decimal, b: Decimal, q: Decimal)
    requires
        s.is_product_of(x, f),
        x.is_product_of(b, q),
    ensures
        parts_eq(
            s.parts(),
            (b.mantissa() * q.mantissa() * f.mantissa(), b.scale() + q.scale() + f.scale()),
        ),
{
    let bq = b.scale() + q.scale();
    let big = top(top(s.scale(), x.scale() + f.scale()), bq + f.scale());
    let t = top(big, x.scale() + f.scale());
    let u = t - f.scale();
    lemma_eq_finer(
        s.mantissa(),
        s.scale(),
        x.mantissa() * f.mantissa(),
        x.scale() + f.scale(),
        top(s.scale(), x.scale() + f.scale()),
        t,
    );
    lemma_eq_finer(
        x.mantissa(),
        x.scale(),
        b.mantissa() * q.mantissa(),
        bq,
        top(x.scale(), bq),
        u,
    );
    let p1 = pow10((t - x.scale() - f.scale()) as nat);
    assert(at(x.mantissa() * f.mantissa(), x.scale() + f.scale(), t) == (x.mantissa() * f.mantissa())
        * p1);
    assert(at(x.mantissa(), x.scale(), u) == x.mantissa() * p1);
    let p2 = pow10((u - bq) as nat);
    assert(at(b.mantissa() * q.mantissa(), bq, u) == (b.mantissa() * q.mantissa()) * p2);
    assert(at(b.mantissa() * q.mantissa() * f.mantissa(), bq + f.scale(), t) == (b.mantissa()
        * q.mantissa() * f.mantissa()) * p2);
    let xm = x.mantissa();
    let fm = f.mantissa();
    let bqm = b.mantissa() * q.mantissa();
    assert((xm * fm) * p1 == fm * (xm * p1)) by (nonlinear_arith);
    assert(fm * (bqm * p2) == (bqm * fm) * p2) by (nonlinear_arith);
    assert(b.mantissa() * q.mantissa() * f.mantissa() == bqm * fm);
    lemma_parts_eq_at(
        s.parts(),
        (b.mantissa() * q.mantissa() * f.mantissa(), bq + f.scale()),
        t,
    );
}

/// Comparisons at any common finer scale agree with comparisons by value.
pub proof fn lemma_compare_at(a: Decimal, b: Decimal, t: int)
    requires
        a.scale() <= t,
        b.scale() <= t,
    ensures
        a.lt(b) <==> at(a.mantissa(), a.scale(), t) < at(b.mantissa(), b.scale(), t),
        a.le(b) <==> at(a.mantissa(), a.scale(), t) <= at(b.mantissa(), b.scale(), t),
        a.eqv(b) <==> at(a.mantissa(), a.scale(), t) == at(b.mantissa(), b.scale(), t),
{
    let c = top(a.scale(), b.scale());
    lemma_at_finer(a.mantissa(), a.scale(), c, t);
    lemma_at_finer(b.mantissa(), b.scale(), c, t);
    let p = pow10((t - c) as nat);
    lemma_pow10_positive((t - c) as nat);
    let x = at(a.mantissa(), a.scale(), c);
    let y = at(b.mantissa(), b.scale(), c);
    assert(x < y <==> x * p < y * p) by (nonlinear_arith)
        requires
            p > 0,
    ;
    assert(x == y <==> x * p == y * p) by (nonlinear_arith)
        requires
            p > 0,
    ;
}

/// Comparisons of (mantissa, scale) pairs at any common finer scale.
pub proof fn lemma_parts_compare_at(a: (int, int), b: (int, int), t: int)
    requires
        a.1 <= t,
        b.1 <= t,
    ensures
        parts_lt(a, b) <==> at(a.0, a.1, t) < at(b.0, b.1, t),
        parts_le(a, b) <==> at(a.0, a.1, t) <= at(b.0, b.1, t),
{
    let c = top(a.1, b.1);
    lemma_at_finer(a.0, a.1, c, t);
    lemma_at_finer(b.0, b.1, c, t);
    let p = pow10((t - c) as nat);
    lemma_pow10_positive((t - c) as nat);
    let x = at(a.0, a.1, c);
    let y = at(b.0, b.1, c);
    assert(x < y <==> x * p < y * p) by (nonlinear_arith)
        requires
            p > 0,
    ;
    assert(x <= y <==> x * p <= y * p) by (nonlinear_arith)
        requires
            p > 0,
    ;
}

/// `<=` on (mantissa, scale) pairs is transitive.
pub proof fn lemma_parts_le_trans(a: (int, int), b: (int, int), c: (int, int))
    requires
        parts_le(a, b),
        parts_le(b, c),
    ensures
        parts_le(a, c),
{
    let t = top(top(a.1, b.1), c.1);
    lemma_parts_compare_at(a, b, t);
    lemma_parts_compare_at(b, c, t);
    lemma_parts_compare_at(a, c, t);
}

/// Two (mantissa, scale) pairs are ordered one way or the other.
pub proof fn lemma_parts_total(a: (int, int), b: (int, int))
    ensures
        parts_lt(a, b) || parts_le(b, a),
        parts_lt(a, b) ==> parts_le(a, b),
        parts_le(a, a),
{
}

/// `<=` by value is transitive.
pub proof fn lemma_le_trans(a: Decimal, b: Decimal, c: Decimal)
    requires
        a.le(b),
        b.le(c),
    ensures
        a.le(c),
{
    let t = top(top(a.scale(), b.scale()), c.scale());
    lemma_compare_at(a, b, t);
    lemma_compare_at(b, c, t);
    lemma_compare_at(a, c, t);
}

/// `<` and `<=` by value chain to `<`.
pub proof fn lemma_lt_le_trans(a: Decimal, b: Decimal, c: Decimal)
    requires
        a.lt(b) && b.le(c) || a.le(b) && b.lt(c),
    ensures
        a.lt(c),
{
    let t = top(top(a.scale(), b.scale()), c.scale());
    lemma_compare_at(a, b, t);
    lemma_compare_at(b, c, t);
    lemma_compare_at(a, c, t);
}

/// Equal values compare the same way against a third value.
pub proof fn lemma_eqv_compare(a: Decimal, b: Decimal, c: Decimal)
    requires
        a.eqv(b),
    ensures
        a.le(c) == b.le(c),
        a.lt(c) == b.lt(c),
        c.le(a) == c.le(b),
        c.lt(a) == c.lt(b),
        a.eqv(c) == b.eqv(c),
{
    let t = top(top(a.scale(), b.scale()), c.scale());
    lemma_compare_at(a, b, t);
    lemma_compare_at(a, c, t);
    lemma_compare_at(b, c, t);
    lemma_compare_at(c, a, t);
    lemma_compare_at(c, b, t);
}

/// Same parts means equal value.
pub proof fn lemma_same_eqv(a: Decimal, b: Decimal)
    requires
        a.same(b),
    ensures
        a.eqv(b),
        b.eqv(a),
{
}

/// The value of `-a` compared with zero.
pub proof fn lemma_negation_sign(r: Decimal, a: Decimal)
    requires
        r.is_negation_of(a),
    ensures
        r.is_negative() == (a.mantissa() > 0),
{
}

/// Comparing with a zero value is comparing the mantissa's sign.
pub proof fn lemma_compare_zero(a: Decimal, z: Decimal)
    requires
        z.is_zero(),
    ensures
        a.lt(z) == (a.mantissa() < 0),
        a.le(z) == (a.mantissa() <= 0),
        z.lt(a) == (a.mantissa() > 0),
        z.le(a) == (a.mantissa() >= 0),
        a.eqv(z) == (a.mantissa() == 0),
{
    let t = top(a.scale(), z.scale());
    let p = pow10((t - a.scale()) as nat);
    lemma_pow10_positive((t - a.scale()) as nat);
    let m = a.mantissa();
    assert(m * p < 0 <==> m < 0) by (nonlinear_arith)
        requires
            p > 0,
    ;
    assert(m * p == 0 <==> m == 0) by (nonlinear_arith)
        requires
            p > 0,
    ;
    assert(z.mantissa() * pow10((t - z.scale()) as nat) == 0);
}

/// Builds the `BigDecimal` with the same sign, digits and scale.
#[verifier::external_body]
fn to_big(d: &Decimal) -> BigDecimal {
    let sign = if d.negative { Sign::Minus } else { Sign::Plus };
    BigDecimal::new(BigInt::from_radix_le(sign, &d.digits, 10).unwrap(), d.scale)
}

/// Takes a `BigDecimal` apart into sign, decimal digits and scale.
#[verifier::external_body]
fn big_parts(b: BigDecimal) -> (bool, Vec<u8>, i64) {
    let (int_val, scale) = b.into_bigint_and_exponent();
    let (sign, digits) = int_val.to_radix_le(10);
    (sign == Sign::Minus, digits, scale)
}

/// The `Decimal` with the sign, digits and scale of a `BigDecimal`.
#[verifier::external_body]
fn from_big(b: BigDecimal) -> Decimal {
    let (negative, digits, scale) = big_parts(b);
    Decimal { negative, digits, scale }
}

/// `BigDecimal + BigDecimal`: each operand is brought to the larger scale
/// (a zero operand too) and the mantissas are added.
#[verifier::external_body]
fn decimal_add(a: &Decimal, b: &Decimal) -> (r: Decimal)
    ensures
        r.is_sum_of(*a, *b),
        r.scale_between(*a, *b),
        r.parts() == decimal_sum(a.mantissa(), a.scale(), b.mantissa(), b.scale()),
{
    from_big(to_big(a) + to_big(b))
}

/// `BigDecimal += BigDecimal`: the exact sum of the two values, at the scale
/// of one of them.
#[verifier::external_body]
fn decimal_add_assign(a: &Decimal, b: &Decimal) -> (r: Decimal)
    ensures
        r.is_sum_of(*a, *b),
        r.scale_between(*a, *b),
        r.parts() == decimal_sum_assign(a.mantissa(), a.scale(), b.mantissa(), b.scale()),
{
    let mut x = to_big(a);
    x += to_big(b);
    from_big(x)
}

/// `&BigDecimal - &BigDecimal`: the exact difference of the two values, at the
/// scale of one of them.
#[verifier::external_body]
fn decimal_sub(a: &Decimal, b: &Decimal) -> (r: Decimal)
    ensures
        a.is_sum_of(r, *b),
        r.scale_between(*a, *b),
        r.parts() == decimal_difference(a.mantissa(), a.scale(), b.mantissa(), b.scale()),
{
    from_big(&to_big(a) - &to_big(b))
}

/// `BigDecimal - BigDecimal` on owned values: the exact difference, at the
/// scale of one of them.
#[verifier::external_body]
fn decimal_sub_owned(a: &Decimal, b: &Decimal) -> (r: Decimal)
    ensures
        a.is_sum_of(r, *b),
        r.scale_between(*a, *b),
        r.parts() == decimal_difference_owned(a.mantissa(), a.scale(), b.mantissa(), b.scale()),
{
    from_big(to_big(a) - to_big(b))
}

/// `BigDecimal - &BigDecimal`: the exact difference, at the scale of one of
/// them. When neither is zero it is at the larger scale `t`, below
/// `10^(da + t - sa) + 10^(db + t - sb)` in magnitude for digit counts `da`, `db`
/// and scales `sa`, `sb`; otherwise it is one operand or its negation. The
/// digits come from `BigInt::to_radix_le`, which writes no leading zeros.
#[verifier::external_body]
fn decimal_sub_owned_ref(a: &Decimal, b: &Decimal) -> (r: Decimal)
    ensures
        a.is_sum_of(r, *b),
        r.scale_between(*a, *b),
        r.digit_count() <= top(
            a.digit_count() + top(a.scale(), b.scale()) - a.scale(),
            b.digit_count() + top(a.scale(), b.scale()) - b.scale(),
        ) + 1,
        r.parts() == decimal_difference_owned_ref(a.mantissa(), a.scale(), b.mantissa(), b.scale()),
{
    from_big(to_big(a) - &to_big(b))
}

/// `&BigDecimal * &BigDecimal`: the exact product of the two values. Its scale
/// is the sum of the scales, except that when one side is exactly one the other
/// comes back normalized (trailing zeros dropped, zero at scale zero); the sum
/// is computed in `i64`, which `requires` keeps within the limit.
#[verifier::external_body]
fn decimal_mul(a: &Decimal, b: &Decimal) -> (r: Decimal)
    requires
        a.can_multiply(*b),
    ensures
        r.scale() == a.scale() + b.scale() || r.scale() == 0 || a.scale() - a.digit_count()
            <= r.scale() <= a.scale() || b.scale() - b.digit_count() <= r.scale() <= b.scale(),
        r.is_product_of(*a, *b),
        r.parts() == decimal_product(a.mantissa(), a.scale(), b.mantissa(), b.scale()),
{
    from_big(&to_big(a) * &to_big(b))
}

/// `BigDecimal * BigDecimal` on owned values: the exact product. Its scale is
/// the sum of the scales, computed in `i64`, except that when one side is
/// exactly one the other comes back as it is.
#[verifier::external_body]
fn decimal_mul_owned(a: &Decimal, b: &Decimal) -> (r: Decimal)
    requires
        -DECIMAL_SCALE_LIMIT <= a.scale() + b.scale() <= DECIMAL_SCALE_LIMIT,
    ensures
        r.scale() == a.scale() + b.scale() || r.scale() == a.scale() || r.scale() == b.scale(),
        r.is_product_of(*a, *b),
        r.parts() == decimal_product_owned(a.mantissa(), a.scale(), b.mantissa(), b.scale()),
{
    from_big(to_big(a) * to_big(b))
}

/// `BigDecimal / BigDecimal`: rounded to the crate's default precision; it panics
/// on a zero divisor, which `requires` leaves out. A zero dividend, or a divisor
/// of exactly one, comes back as the dividend; otherwise the scale starts at the
/// difference of the scales and grows by one for each shift of the dividend
/// (at most the divisor's digit count) and each digit past the first (fewer
/// than the precision), all in `i64`, which `requires` keeps within the limit.
/// The digits come from long division of the shifted dividend's magnitude by
/// the divisor's, each step taking the floor; when a remainder is left at the
/// precision, a rounding term of zero or one is added. The shift makes the
/// first digit non-zero; the sign is set by negating for a negative operand.
/// A divisor of exactly one, or a dividend equal to the divisor (quotient one),
/// gives the exact quotient. No clause states which rounding term is chosen.
#[verifier::external_body]
fn decimal_div(a: &Decimal, b: &Decimal) -> (r: Decimal)
    requires
        !b.is_zero(),
        -DECIMAL_SCALE_LIMIT <= a.scale() - b.scale(),
        a.scale() - b.scale() + b.digit_count() + quotient_digit_allowance()
            <= DECIMAL_SCALE_LIMIT,
    ensures
        r.scale() == a.scale() || a.scale() - b.scale() <= r.scale() <= a.scale() - b.scale()
            + b.digit_count() + quotient_digit_allowance(),
        rounded_quotient(r.parts(), a.parts(), b.parts()),
        r.parts() == decimal_quotient(a.mantissa(), a.scale(), b.mantissa(), b.scale()),
{
    from_big(to_big(a) / to_big(b))
}

/// `BigDecimal < BigDecimal`: comparison by value.
#[verifier::external_body]
fn decimal_lt(a: &Decimal, b: &Decimal) -> (r: bool)
    ensures
        r == a.lt(*b),
{
    to_big(a) < to_big(b)
}

/// `BigDecimal == BigDecimal`: equality by value.
#[verifier::external_body]
fn decimal_eq(a: &Decimal, b: &Decimal) -> (r: bool)
    ensures
        r == a.eqv(*b),
{
    to_big(a) == to_big(b)
}

/// `BigDecimal::from_str`, taken apart into sign, decimal digits (from
/// `BigInt::to_radix_le`, each below ten) and scale.
#[verifier::external_body]
fn decimal_from_str(text: &str) -> (r: Option<(bool, Vec<u8>, i64)>)
    ensures
        r.is_some() == decimal_parse(text@).is_some(),
        r.is_some() ==> digits_parts(r.unwrap().0, r.unwrap().1@, r.unwrap().2 as int)
            == decimal_parse(text@).unwrap(),
        r.is_some() ==> forall|i: int| 0 <= i < r.unwrap().1@.len() ==> r.unwrap().1@[i] < 10,
{
    match <BigDecimal as std::str::FromStr>::from_str(text) {
        Ok(b) => Some(big_parts(b)),
        Err(_) => None,
    }
}

/// `BigDecimal`'s `Display`.
#[verifier::external_body]
fn decimal_to_string(d: &Decimal) -> (r: String)
    ensures
        r@ == decimal_text(d.mantissa(), d.scale()),
{
    to_big(d).to_string()
}

impl Clone for Decimal {
    fn clone(&self) -> (r: Self)
        ensures
            r.same(*self),
    {
        self.copy()
    }
}

impl PartialEq for Decimal {
    fn eq(&self, other: &Self) -> (r: bool) {
        decimal_eq(self, other)
    }
}

impl vstd::std_specs::cmp::PartialEqSpecImpl for Decimal {
    open spec fn obeys_eq_spec() -> bool {
        true
    }

    open spec fn eq_spec(&self, other: &Decimal) -> bool {
        self.eqv(*other)
    }
}

/// Appends the `Display` text of a decimal.
pub fn push_decimal(s: &mut String, d: &Decimal)
    ensures
        final(s)@ == old(s)@ + decimal_text(d.mantissa(), d.scale()),
{
    let t = d.to_text();
    push_str(s, t.as_str());
}

} // verus!
