//! Fixed-point decimal amounts.
//!
//! [`Dec`] holds a decimal as its plain parts: a signed mantissa of at most
//! 96 bits and a scale between 0 and 28, so that the number is
//! `mantissa / 10^scale`.  Arithmetic that needs rounding or long
//! multiplication is delegated to `rust_decimal`; comparisons against zero
//! and construction are plain integer logic.

use vstd::prelude::*;

use crate::text::digits_of;

verus! {

/// Largest scale (number of fractional digits) a decimal may carry.
pub const MAX_SCALE: u32 = 28;

/// `10^n` as a mathematical integer.
pub open spec fn pow10(n: nat) -> int
    decreases n,
{
    if n == 0 {
        1
    } else {
        10 * pow10((n - 1) as nat)
    }
}

/// Exclusive bound on the magnitude of a mantissa: `2^96`.
pub open spec fn mantissa_bound() -> int {
    0x1_0000_0000_0000_0000_0000_0000
}

/// Numeric value of a `(mantissa, scale)` pair, counted in units of `10^-28`.
pub open spec fn repr_value(r: (int, nat)) -> int {
    r.0 * pow10((28 - r.1) as nat)
}

/// Whether the value `v` (in units of `10^-28`) can be written with scale `s`
/// and a mantissa below `2^96` in magnitude.
pub open spec fn representable(v: int, s: nat) -> bool {
    &&& s <= 28
    &&& v % pow10((28 - s) as nat) == 0
    &&& -mantissa_bound() < v / pow10((28 - s) as nat) < mantissa_bound()
}

pub open spec fn abs(v: int) -> int {
    if v < 0 { -v } else { v }
}

pub open spec fn max_nat(a: nat, b: nat) -> nat {
    if a < b { b } else { a }
}

/// A decimal number `mantissa / 10^scale`.
#[derive(Clone, Copy, Debug)]
pub struct Dec {
    mantissa: i128,
    scale: u32,
}

impl View for Dec {
    type V = (int, nat);

    /// The `(mantissa, scale)` representation.
    closed spec fn view(&self) -> (int, nat) {
        (self.mantissa as int, self.scale as nat)
    }
}

impl Dec {
    /// Every decimal keeps the representation invariant of `rust_decimal`.
    #[verifier::type_invariant]
    closed spec fn inv(self) -> bool {
        self.wf()
    }

    /// Makes the representation invariant of `self` available to a proof.
    pub fn lemma_wf(&self)
        ensures
            self.wf(),
    {
        proof {
            use_type_invariant(self);
        }
    }

    /// The decimal's numeric value in units of `10^-28`.
    pub open spec fn value(self) -> int {
        repr_value(self@)
    }

    /// Representation invariant shared with `rust_decimal::Decimal`.
    pub open spec fn wf(self) -> bool {
        &&& self.spec_scale() <= MAX_SCALE
        &&& -mantissa_bound() < self.spec_mantissa() < mantissa_bound()
    }

    pub open spec fn spec_mantissa(self) -> int {
        self@.0
    }

    pub open spec fn spec_scale(self) -> nat {
        self@.1
    }

    /// The decimal built from a representation.
    pub closed spec fn from_repr(r: (int, nat)) -> Dec {
        Dec { mantissa: r.0 as i128, scale: r.1 as u32 }
    }

    /// A well-formed representation is kept by `from_repr`.
    pub proof fn lemma_from_repr(r: (int, nat))
        requires
            r.1 <= 28,
            -mantissa_bound() < r.0 < mantissa_bound(),
        ensures
            Dec::from_repr(r)@ == r,
            Dec::from_repr(r).wf(),
    {
    }

    /// `num / 10^scale`, as `rust_decimal::Decimal::new` builds it.
    pub fn new(num: i64, scale: u32) -> (r: Dec)
        requires
            scale <= MAX_SCALE,
        ensures
            r.wf(),
            r@ == (num as int, scale as nat),
    {
        Dec { mantissa: num as i128, scale }
    }

    /// Builds a decimal from a 96-bit mantissa and a scale.
    pub fn from_parts(mantissa: i128, scale: u32) -> (r: Dec)
        requires
            scale <= MAX_SCALE,
            -mantissa_bound() < mantissa < mantissa_bound(),
        ensures
            r.wf(),
            r@ == (mantissa as int, scale as nat),
    {
        Dec { mantissa, scale }
    }

    /// The number zero.
    pub fn zero() -> (r: Dec)
        ensures
            r == Dec::from_repr((0, 0)),
            r.wf(),
            r@ == (0int, 0nat),
            r.value() == 0,
    {
        Dec { mantissa: 0, scale: 0 }
    }

    /// The number one.
    pub fn one() -> (r: Dec)
        ensures
            r.wf(),
            r@ == (1int, 0nat),
            r.value() == pow10(28),
    {
        proof {
            lemma_pow10_pos(28);
        }
        Dec { mantissa: 1, scale: 0 }
    }

    pub fn mantissa(&self) -> (r: i128)
        ensures
            r == self.spec_mantissa(),
    {
        self.mantissa
    }

    pub fn scale(&self) -> (r: u32)
        ensures
            r == self.spec_scale(),
    {
        self.scale
    }

    /// Whether the number is zero.
    pub fn is_zero(&self) -> (r: bool)
        ensures
            r == (self.value() == 0),
    {
        proof {
            use_type_invariant(self);
            lemma_value_sign(*self);
        }
        self.mantissa == 0
    }

    /// Whether the number is strictly positive.
    pub fn is_positive(&self) -> (r: bool)
        ensures
            r == (self.value() > 0),
    {
        proof {
            use_type_invariant(self);
            lemma_value_sign(*self);
        }
        self.mantissa > 0
    }

    /// Whether the number is strictly negative.
    pub fn is_negative(&self) -> (r: bool)
        ensures
            r == (self.value() < 0),
    {
        proof {
            use_type_invariant(self);
            lemma_value_sign(*self);
        }
        self.mantissa < 0
    }
}

/// The representation `(0, 0)` is the number zero.
pub proof fn lemma_repr_zero()
    ensures
        Dec::from_repr((0, 0))@ == (0int, 0nat),
        Dec::from_repr((0, 0)).value() == 0,
        Dec::from_repr((0, 0)).wf(),
{
}

pub proof fn lemma_pow10_pos(n: nat)
    ensures
        pow10(n) > 0,
    decreases n,
{
    if n > 0 {
        lemma_pow10_pos((n - 1) as nat);
    }
}

/// The sign of a decimal's value is the sign of its mantissa.
pub proof fn lemma_value_sign(d: Dec)
    ensures
        (d.value() == 0) == (d.spec_mantissa() == 0),
        (d.value() > 0) == (d.spec_mantissa() > 0),
        (d.value() < 0) == (d.spec_mantissa() < 0),
{
    let p = pow10((28 - d.spec_scale()) as nat);
    lemma_pow10_pos((28 - d.spec_scale()) as nat);
    let m = d.spec_mantissa();
    assert(m > 0 ==> m * p > 0) by (nonlinear_arith)
        requires
            p > 0,
    ;
    assert(m < 0 ==> m * p < 0) by (nonlinear_arith)
        requires
            p > 0,
    ;
    assert(m == 0 ==> m * p == 0) by (nonlinear_arith);
}


/// Result of `rust_decimal::Decimal::checked_add` on two representations.
pub uninterp spec fn decimal_checked_add(a: (int, nat), b: (int, nat)) -> Option<(int, nat)>;

/// Result of `rust_decimal::Decimal::checked_sub` on two representations.
pub uninterp spec fn decimal_checked_sub(a: (int, nat), b: (int, nat)) -> Option<(int, nat)>;

/// Result of `rust_decimal::Decimal::checked_mul` on two representations.
pub uninterp spec fn decimal_checked_mul(a: (int, nat), b: (int, nat)) -> Option<(int, nat)>;

/// Result of `rust_decimal::Decimal::checked_div` on two representations.
pub uninterp spec fn decimal_checked_div(a: (int, nat), b: (int, nat)) -> Option<(int, nat)>;

/// A named decimal result turned into a `Dec`.
pub open spec fn lift(r: Option<(int, nat)>) -> Option<Dec> {
    match r {
        Some(p) => Some(Dec::from_repr(p)),
        None => None,
    }
}

/// Spec of `a + b` as computed by `rust_decimal`; `None` on overflow.
pub open spec fn dec_add(a: Dec, b: Dec) -> Option<Dec> {
    lift(decimal_checked_add(a@, b@))
}

/// Spec of `a - b` as computed by `rust_decimal`; `None` on overflow.
pub open spec fn dec_sub(a: Dec, b: Dec) -> Option<Dec> {
    lift(decimal_checked_sub(a@, b@))
}

/// Spec of `a * b` as computed by `rust_decimal`; `None` on overflow.
pub open spec fn dec_mul(a: Dec, b: Dec) -> Option<Dec> {
    lift(decimal_checked_mul(a@, b@))
}

/// Spec of `a / b` as computed by `rust_decimal`; `None` on overflow or a zero divisor.
pub open spec fn dec_div(a: Dec, b: Dec) -> Option<Dec> {
    lift(decimal_checked_div(a@, b@))
}

/// Facts shared by the results of every arithmetic wrapper: a result is a
/// well-formed decimal, named by the outside function's result.
pub open spec fn result_facts(r: Option<Dec>, named: Option<(int, nat)>) -> bool {
    &&& r == lift(named)
    &&& (r matches Some(x) ==> x.wf() && named == Some(x@))
}

/// The exact result `v` of adding or subtracting `a` and `b` can be written
/// at the larger of their scales.
pub open spec fn sum_is_exact(a: Dec, b: Dec, v: int) -> bool {
    representable(v, max_nat(a.spec_scale(), b.spec_scale()))
}

/// The exact result `v` is no larger in magnitude than one of the operands.
pub open spec fn no_growth(a: Dec, b: Dec, v: int) -> bool {
    abs(v) <= abs(a.value()) || abs(v) <= abs(b.value())
}

/// Rounding to the nearest representable decimal never moves a result
/// across zero: `r` is non-negative when `exact` is, and non-positive when
/// `exact` is.
pub open spec fn same_sign(r: int, exact: int) -> bool {
    &&& (exact >= 0 ==> r >= 0)
    &&& (exact <= 0 ==> r <= 0)
}

/// The product of the mantissas fits in 96 bits at the summed scale.
pub open spec fn product_is_exact(a: Dec, b: Dec) -> bool {
    &&& a.spec_scale() + b.spec_scale() <= 28
    &&& -mantissa_bound() < a.spec_mantissa() * b.spec_mantissa()
    &&& a.spec_mantissa() * b.spec_mantissa() < mantissa_bound()
}

/// Representation of an exact product: the product of the mantissas at the
/// summed scale, or zero at scale 0 when an operand is zero.
pub open spec fn exact_product_repr(a: Dec, b: Dec) -> (int, nat) {
    if a.spec_mantissa() == 0 || b.spec_mantissa() == 0 {
        (0, 0)
    } else {
        (a.spec_mantissa() * b.spec_mantissa(), a.spec_scale() + b.spec_scale())
    }
}

/// The exact quotient of `a` by `b`, in units of `10^-28`, can be written
/// as a decimal at some scale.
pub open spec fn quotient_is_exact(a: Dec, b: Dec) -> bool {
    &&& b.value() != 0
    &&& (a.value() * pow10(28)) % b.value() == 0
    &&& exists|s: nat| #[trigger] representable((a.value() * pow10(28)) / b.value(), s)
}

/// `rust_decimal::Decimal::checked_add`: the sum, or `None` on overflow.
/// Claimed of it beyond the name: its results are valid decimals with the
/// sign of the exact sum (rounding goes to the nearest value); when the
/// exact sum can be written at the larger of the two scales it is returned
/// exactly, at their common scale when both operands share one; when the sum is no larger in magnitude than an operand there is
/// no overflow.  Otherwise the result is rounded (not stated here).
#[verifier::external_body]
fn checked_add(a: Dec, b: Dec) -> (r: Option<Dec>)
    requires
        a.wf(),
        b.wf(),
    ensures
        result_facts(r, decimal_checked_add(a@, b@)),
        sum_is_exact(a, b, a.value() + b.value()) ==> r is Some && r.unwrap().value() == a.value() + b.value(),
        sum_is_exact(a, b, a.value() + b.value()) && a.spec_scale() == b.spec_scale() ==> r.unwrap().spec_scale() == a.spec_scale(),
        no_growth(a, b, a.value() + b.value()) ==> r is Some,
        r is Some ==> same_sign(r.unwrap().value(), a.value() + b.value()),
{
    match rust_decimal::Decimal::from_i128_with_scale(a.mantissa, a.scale).checked_add(rust_decimal::Decimal::from_i128_with_scale(b.mantissa, b.scale)) {
        Some(x) => Some(Dec { mantissa: x.mantissa(), scale: x.scale() }),
        None => None,
    }
}

/// `rust_decimal::Decimal::checked_sub`: the difference, or `None` on
/// overflow, with the same facts as [`checked_add`] for `a + (-b)`; in
/// addition, taking a smaller non-negative amount from a larger one neither
/// overflows nor rounds outside `[0, a]` (the scale is only reduced down to
/// one at which `a` itself is representable).
#[verifier::external_body]
fn checked_sub(a: Dec, b: Dec) -> (r: Option<Dec>)
    requires
        a.wf(),
        b.wf(),
    ensures
        result_facts(r, decimal_checked_sub(a@, b@)),
        sum_is_exact(a, b, a.value() - b.value()) ==> r is Some && r.unwrap().value() == a.value() - b.value(),
        sum_is_exact(a, b, a.value() - b.value()) && a.spec_scale() == b.spec_scale() ==> r.unwrap().spec_scale() == a.spec_scale(),
        no_growth(a, b, a.value() - b.value()) ==> r is Some,
        r is Some ==> same_sign(r.unwrap().value(), a.value() - b.value()),
        0 <= b.value() <= a.value() ==> r is Some && 0 <= r.unwrap().value() <= a.value(),
{
    match rust_decimal::Decimal::from_i128_with_scale(a.mantissa, a.scale).checked_sub(rust_decimal::Decimal::from_i128_with_scale(b.mantissa, b.scale)) {
        Some(x) => Some(Dec { mantissa: x.mantissa(), scale: x.scale() }),
        None => None,
    }
}

/// `rust_decimal::Decimal::checked_mul`: the product, or `None` on overflow.
/// Claimed beyond the name: results are valid decimals with the sign of the
/// exact product (rounding goes to the nearest value), and when the product
/// of the mantissas fits in 96 bits at the summed scale (at most 28) the
/// product is exact: the product of the mantissas at the summed scale, or
/// zero at scale 0 when an operand is zero.
#[verifier::external_body]
fn checked_mul(a: Dec, b: Dec) -> (r: Option<Dec>)
    requires
        a.wf(),
        b.wf(),
    ensures
        result_facts(r, decimal_checked_mul(a@, b@)),
        product_is_exact(a, b) ==> r is Some && r.unwrap().value() * pow10(28) == a.value() * b.value(),
        product_is_exact(a, b) ==> r.unwrap()@ == exact_product_repr(a, b),
        r is Some ==> same_sign(r.unwrap().value(), a.value() * b.value()),
{
    match rust_decimal::Decimal::from_i128_with_scale(a.mantissa, a.scale).checked_mul(rust_decimal::Decimal::from_i128_with_scale(b.mantissa, b.scale)) {
        Some(x) => Some(Dec { mantissa: x.mantissa(), scale: x.scale() }),
        None => None,
    }
}

/// `rust_decimal::Decimal::checked_div`: the rounded quotient, or `None` when
/// the divisor is zero or the quotient overflows.  Claimed beyond the name:
/// results are valid decimals whose sign is that of the exact quotient, and
/// the quotient is exact whenever it can be written as a decimal.
#[verifier::external_body]
fn checked_div(a: Dec, b: Dec) -> (r: Option<Dec>)
    requires
        a.wf(),
        b.wf(),
    ensures
        result_facts(r, decimal_checked_div(a@, b@)),
        b.value() == 0 ==> r is None,
        quotient_is_exact(a, b) ==> r is Some && r.unwrap().value() == (a.value() * pow10(28)) / b.value(),
        r is Some ==> same_sign(r.unwrap().value(), a.value() * b.value()),
{
    match rust_decimal::Decimal::from_i128_with_scale(a.mantissa, a.scale).checked_div(rust_decimal::Decimal::from_i128_with_scale(b.mantissa, b.scale)) {
        Some(x) => Some(Dec { mantissa: x.mantissa(), scale: x.scale() }),
        None => None,
    }
}

/// Three-way numeric comparison through `rust_decimal`'s `Ord`:
/// `-1`, `0` or `1` as `a` is below, equal to or above `b` in value.
#[verifier::external_body]
fn compare(a: Dec, b: Dec) -> (r: i8)
    requires
        a.wf(),
        b.wf(),
    ensures
        r == -1 <==> a.value() < b.value(),
        r == 0 <==> a.value() == b.value(),
        r == 1 <==> a.value() > b.value(),
{
    match rust_decimal::Decimal::from_i128_with_scale(a.mantissa, a.scale).cmp(&rust_decimal::Decimal::from_i128_with_scale(b.mantissa, b.scale)) {
        std::cmp::Ordering::Less => -1,
        std::cmp::Ordering::Equal => 0,
        std::cmp::Ordering::Greater => 1,
    }
}

/// `n` zero digits.
pub open spec fn zeros(n: nat) -> Seq<char> {
    Seq::new(n, |i: int| '0')
}

/// Text of a decimal with the given representation, as `rust_decimal`
/// displays it: a `-` for a negative mantissa, then the digits of the
/// mantissa's magnitude, padded with leading zeros to at least `scale`
/// digits, with a point before the last `scale` of them and a `0` before
/// the point when no digit is left there; zero with scale 0 is `0`.
pub open spec fn decimal_display(r: (int, nat)) -> Seq<char> {
    let m = abs(r.0);
    let d = if m == 0 { Seq::<char>::empty() } else { digits_of(m as nat) };
    let p = if d.len() < r.1 { zeros((r.1 - d.len()) as nat) + d } else { d };
    let body = if r.1 == 0 {
        if p.len() == 0 { seq!['0'] } else { p }
    } else {
        let w = p.subrange(0, p.len() - r.1);
        (if w.len() == 0 { seq!['0'] } else { w }) + seq!['.'] + p.subrange(p.len() - r.1, p.len() as int)
    };
    if r.0 < 0 { seq!['-'] + body } else { body }
}

/// `Display` of `rust_decimal::Decimal`: the text [`decimal_display`]
/// states for the representation (every digit of the scale kept).
#[verifier::external_body]
fn decimal_to_string(a: Dec) -> (r: String)
    requires
        a.wf(),
    ensures
        r@ == decimal_display(a@),
{
    rust_decimal::Decimal::from_i128_with_scale(a.mantissa, a.scale).to_string()
}

impl Dec {
    /// `self < other` by value.
    pub fn lt(&self, other: &Dec) -> (r: bool)
        ensures
            r == (self.value() < other.value()),
    {
        proof {
            use_type_invariant(self);
            use_type_invariant(other);
        }
        compare(*self, *other) == -1
    }

    /// `self <= other` by value.
    pub fn le(&self, other: &Dec) -> (r: bool)
        ensures
            r == (self.value() <= other.value()),
    {
        proof {
            use_type_invariant(self);
            use_type_invariant(other);
        }
        compare(*self, *other) != 1
    }

    /// `self == other` by value.
    pub fn num_eq(&self, other: &Dec) -> (r: bool)
        ensures
            r == (self.value() == other.value()),
    {
        proof {
            use_type_invariant(self);
            use_type_invariant(other);
        }
        compare(*self, *other) == 0
    }

    /// The smaller of two decimals, `self` on ties (as `Ord::min` picks).
    pub fn min(self, other: Dec) -> (r: Dec)
        ensures
            r == (if other.value() < self.value() { other } else { self }),
    {
        if other.lt(&self) {
            other
        } else {
            self
        }
    }

    /// The decimal's text, as `rust_decimal` displays it.
    pub fn text(&self) -> (r: String)
        ensures
            r@ == decimal_display(self@),
    {
        proof {
            use_type_invariant(self);
        }
        decimal_to_string(*self)
    }

    /// `self + other` through `rust_decimal`; `None` on overflow.
    pub fn add(self, other: Dec) -> (r: Option<Dec>)
        ensures
            r == dec_add(self, other),
            sum_is_exact(self, other, self.value() + other.value()) ==> r is Some && r.unwrap().value() == self.value() + other.value(),
            sum_is_exact(self, other, self.value() + other.value()) && self.spec_scale() == other.spec_scale() ==> r.unwrap().spec_scale() == self.spec_scale(),
            no_growth(self, other, self.value() + other.value()) ==> r is Some,
            r is Some ==> same_sign(r.unwrap().value(), self.value() + other.value()),
    {
        proof {
            use_type_invariant(&self);
            use_type_invariant(&other);
        }
        checked_add(self, other)
    }

    /// `self - other` through `rust_decimal`; `None` on overflow.
    pub fn sub(self, other: Dec) -> (r: Option<Dec>)
        ensures
            r == dec_sub(self, other),
            sum_is_exact(self, other, self.value() - other.value()) ==> r is Some && r.unwrap().value() == self.value() - other.value(),
            sum_is_exact(self, other, self.value() - other.value()) && self.spec_scale() == other.spec_scale() ==> r.unwrap().spec_scale() == self.spec_scale(),
            no_growth(self, other, self.value() - other.value()) ==> r is Some,
            r is Some ==> same_sign(r.unwrap().value(), self.value() - other.value()),
            0 <= other.value() <= self.value() ==> r is Some && 0 <= r.unwrap().value() <= self.value(),
    {
        proof {
            use_type_invariant(&self);
            use_type_invariant(&other);
        }
        checked_sub(self, other)
    }

    /// `self * other` through `rust_decimal`; `None` on overflow.
    pub fn mul(self, other: Dec) -> (r: Option<Dec>)
        ensures
            r == dec_mul(self, other),
            product_is_exact(self, other) ==> r is Some && r.unwrap().value() * pow10(28) == self.value() * other.value(),
            product_is_exact(self, other) ==> r.unwrap()@ == exact_product_repr(self, other),
            r is Some ==> same_sign(r.unwrap().value(), self.value() * other.value()),
    {
        proof {
            use_type_invariant(&self);
            use_type_invariant(&other);
        }
        checked_mul(self, other)
    }

    /// `self / other` through `rust_decimal`; `None` on overflow or division by zero.
    pub fn div(self, other: Dec) -> (r: Option<Dec>)
        ensures
            r == dec_div(self, other),
            other.value() == 0 ==> r is None,
            quotient_is_exact(self, other) ==> r is Some && r.unwrap().value() == (self.value() * pow10(28)) / other.value(),
            r is Some ==> same_sign(r.unwrap().value(), self.value() * other.value()),
    {
        proof {
            use_type_invariant(&self);
            use_type_invariant(&other);
        }
        checked_div(self, other)
    }
}

impl PartialEq for Dec {
    fn eq(&self, other: &Dec) -> (r: bool) {
        self.num_eq(other)
    }
}

impl vstd::std_specs::cmp::PartialEqSpecImpl for Dec {
    open spec fn obeys_eq_spec() -> bool {
        true
    }

    open spec fn eq_spec(&self, other: &Dec) -> bool {
        self.value() == other.value()
    }
}

impl Eq for Dec {
}

} // verus!
