//! Fixed-precision decimal numbers.
//!
//! A [`Decimal`] is the number `mantissa / 10^scale` with a 96-bit mantissa and
//! a scale of at most 28. The arithmetic itself is done by `rust_decimal`:
//! each operation converts its operands, makes one call and converts the
//! result back.
//!
//! Sums, differences, products and quotients are rounded by `rust_decimal`
//! where the exact result has too many digits, by rules that take pages to
//! state. Their results are therefore *named*: `decimal_sum(a, b)` is whatever
//! `checked_add` returns for `a` and `b`, and nothing more is claimed of it
//! than that a decimal which comes back is well formed. Comparison, minimum,
//! absolute value and conversion from an integer are exact, and their
//! contracts say so over [`Decimal::units`].

use std::cmp::Ordering;
use vstd::prelude::*;
use vstd::arithmetic::power::{pow, lemma_pow_positive};
use vstd::std_specs::cmp::{PartialEqSpecImpl, PartialOrdSpecImpl};

verus! {

/// The largest scale a decimal can have.
pub const MAX_SCALE: u32 = 28;

/// The largest mantissa a decimal can have, `2^96 - 1`.
pub const MAX_MANTISSA: i128 = 79_228_162_514_264_337_593_543_950_335;

/// The number `mantissa / 10^scale`.
///
/// Two decimals can be equal as numbers and still differ as values: `1.0` has
/// mantissa 10 and scale 1, `1.00` has mantissa 100 and scale 2. In contracts
/// `==` compares mantissa and scale; in executable code `==` and `<` compare
/// the numbers.
#[derive(Clone, Copy, Debug)]
pub struct Decimal {
    mantissa: i128,
    scale: u32,
}

/// What `rust_decimal::Decimal::checked_add` returns for `a + b`.
pub uninterp spec fn decimal_sum(a: Decimal, b: Decimal) -> Option<Decimal>;

/// What `rust_decimal::Decimal::checked_sub` returns for `a - b`.
pub uninterp spec fn decimal_difference(a: Decimal, b: Decimal) -> Option<Decimal>;

/// What `rust_decimal::Decimal::checked_mul` returns for `a * b`.
pub uninterp spec fn decimal_product(a: Decimal, b: Decimal) -> Option<Decimal>;

/// What `rust_decimal::Decimal::checked_div` returns for `a / b`.
pub uninterp spec fn decimal_quotient(a: Decimal, b: Decimal) -> Option<Decimal>;

/// What parsing `text` as a `rust_decimal::Decimal` gives, `None` where the
/// text is refused.
pub uninterp spec fn decimal_parse(text: Seq<char>) -> Option<Decimal>;

/// The text that `rust_decimal` prints for `d` with `places` digits after the
/// decimal point.
pub uninterp spec fn decimal_fixed_text(d: Decimal, places: nat) -> Seq<char>;

/// The text that `rust_decimal` prints for `d` with as many digits after the
/// decimal point as its scale.
pub uninterp spec fn decimal_text(d: Decimal) -> Seq<char>;

/// The longest text that `rust_decimal` can print a decimal into when it is
/// given a number of places.
pub const TEXT_CAPACITY: usize = 32;

/// The number of decimal digits of a natural number; zero has none.
pub open spec fn digit_count(n: nat) -> nat
    decreases n,
{
    if n == 0 {
        0
    } else {
        1 + digit_count(n / 10)
    }
}

/// How many units make one: `10^28`.
pub open spec fn unit() -> int {
    pow(10, MAX_SCALE as nat)
}

/// The sum of `a` and `b` has a result, and that result is their sum as
/// numbers: nothing was rounded away.
pub open spec fn sum_is_exact(a: Decimal, b: Decimal) -> bool {
    decimal_sum(a, b) matches Some(s) && s.units() == a.units() + b.units()
}

/// The difference of `a` and `b` has a result, and that result is their
/// difference as numbers: nothing was rounded away.
pub open spec fn difference_is_exact(a: Decimal, b: Decimal) -> bool {
    decimal_difference(a, b) matches Some(d) && d.units() == a.units() - b.units()
}

/// The product of `a` and `b` has a result, and that result is their product
/// as numbers: nothing was rounded away.
pub open spec fn product_is_exact(a: Decimal, b: Decimal) -> bool {
    decimal_product(a, b) matches Some(p) && p.units() * unit() == a.units() * b.units()
}

/// The step from one decimal of a scale to the next, in units.
pub open spec fn step(scale: nat) -> int {
    pow(10, (MAX_SCALE - scale) as nat)
}

/// The quotient of `a` and `b`, for `b` other than zero, has a result, and
/// that result is no further from their quotient as numbers than half a step
/// of its scale: it is the quotient itself, or the quotient rounded to the
/// nearest decimal of that scale.
pub open spec fn quotient_is_nearest(a: Decimal, b: Decimal) -> bool {
    &&& b.units() != 0
    &&& decimal_quotient(a, b) matches Some(q) && q.wf() && 2 * vstd::math::abs(
        q.units() * b.units() - a.units() * unit(),
    ) <= vstd::math::abs(b.units()) * step(q.spec_scale())
}

/// The error that `rust_decimal` gives for a text it cannot parse.
#[verifier::external_type_specification]
#[verifier::external_body]
pub struct ExDecimalError(rust_decimal::Error);

/// How two numbers compare.
pub open spec fn ordering_of(a: int, b: int) -> Ordering {
    if a < b {
        Ordering::Less
    } else if a == b {
        Ordering::Equal
    } else {
        Ordering::Greater
    }
}

impl Decimal {
    /// The mantissa, as a mathematical integer.
    pub closed spec fn spec_mantissa(self) -> int {
        self.mantissa as int
    }

    /// The scale, as a natural number.
    pub closed spec fn spec_scale(self) -> nat {
        self.scale as nat
    }

    /// The decimal with the given mantissa and scale.
    pub closed spec fn from_parts(mantissa: int, scale: nat) -> Decimal {
        Decimal { mantissa: mantissa as i128, scale: scale as u32 }
    }

    /// What [`Decimal::from_parts`] builds has the parts it was given, as long
    /// as they fit.
    pub proof fn lemma_from_parts(mantissa: int, scale: nat)
        requires
            -MAX_MANTISSA <= mantissa <= MAX_MANTISSA,
            scale <= MAX_SCALE,
        ensures
            Decimal::from_parts(mantissa, scale).spec_mantissa() == mantissa,
            Decimal::from_parts(mantissa, scale).spec_scale() == scale,
            Decimal::from_parts(mantissa, scale).wf(),
    {
    }

    /// The mantissa fits in 96 bits and the scale is at most 28.
    pub open spec fn wf(self) -> bool {
        &&& -MAX_MANTISSA <= self.spec_mantissa() <= MAX_MANTISSA
        &&& self.spec_scale() <= MAX_SCALE
    }

    #[verifier::type_invariant]
    spec fn inv(self) -> bool {
        self.wf()
    }

    /// The value in units of `10^-28`. No scale exceeds 28, so this is an
    /// integer, and two decimals are the same number exactly when their units
    /// are equal.
    pub open spec fn units(self) -> int {
        self.spec_mantissa() * pow(10, (MAX_SCALE - self.spec_scale()) as nat)
    }

    /// The number can be written with the given scale: it is a whole number
    /// of that scale's steps.
    pub open spec fn on_scale(self, scale: nat) -> bool {
        self.units() % step(scale) == 0
    }

    /// Strictly greater than zero, as a number.
    pub open spec fn spec_is_positive(&self) -> bool {
        self.units() > 0
    }

    /// Zero or greater, as a number.
    pub open spec fn is_non_negative(self) -> bool {
        self.units() >= 0
    }

    /// A decimal is determined by its mantissa and its scale.
    pub proof fn lemma_same_parts(a: Decimal, b: Decimal)
        requires
            a.spec_mantissa() == b.spec_mantissa(),
            a.spec_scale() == b.spec_scale(),
        ensures
            a == b,
    {
    }

    /// The sign of the units is the sign of the mantissa.
    pub proof fn lemma_units_sign(self)
        requires
            self.wf(),
        ensures
            self.units() > 0 <==> self.spec_mantissa() > 0,
            self.units() == 0 <==> self.spec_mantissa() == 0,
            self.units() < 0 <==> self.spec_mantissa() < 0,
    {
        let p = pow(10, (MAX_SCALE - self.spec_scale()) as nat);
        lemma_pow_positive(10, (MAX_SCALE - self.spec_scale()) as nat);
        let m = self.spec_mantissa();
        assert(m > 0 ==> m * p > 0) by (nonlinear_arith)
            requires
                p > 0,
        ;
        assert(m < 0 ==> m * p < 0) by (nonlinear_arith)
            requires
                p > 0,
        ;
        assert(m == 0 ==> m * p == 0) by (nonlinear_arith);
    }

    /// The decimal `num / 10^scale`.
    pub fn new(num: i64, scale: u32) -> (r: Decimal)
        requires
            scale <= MAX_SCALE,
        ensures
            r == Decimal::from_parts(num as int, scale as nat),
            r.spec_mantissa() == num,
            r.spec_scale() == scale,
            r.wf(),
            r.units() > 0 <==> num > 0,
            r.units() < 0 <==> num < 0,
    {
        let r = Decimal { mantissa: num as i128, scale };
        proof {
            r.lemma_units_sign();
        }
        r
    }

    /// The decimal `num / 10^scale`, or `None` where the scale exceeds 28.
    pub fn try_new(num: i64, scale: u32) -> (r: Option<Decimal>)
        ensures
            r is Some <==> scale <= MAX_SCALE,
            r matches Some(d) ==> d.spec_mantissa() == num && d.spec_scale() == scale && d.wf(),
    {
        if scale <= MAX_SCALE {
            Some(Decimal { mantissa: num as i128, scale })
        } else {
            None
        }
    }

    /// The decimal `num / 10^scale` for a mantissa of up to 96 bits.
    pub fn from_i128_with_scale(num: i128, scale: u32) -> (r: Decimal)
        requires
            -MAX_MANTISSA <= num <= MAX_MANTISSA,
            scale <= MAX_SCALE,
        ensures
            r == Decimal::from_parts(num as int, scale as nat),
            r.spec_mantissa() == num,
            r.spec_scale() == scale,
            r.wf(),
            r.units() > 0 <==> num > 0,
            r.units() < 0 <==> num < 0,
    {
        let r = Decimal { mantissa: num, scale };
        proof {
            r.lemma_units_sign();
        }
        r
    }

    /// The decimal `num / 10^scale`, or `None` where the mantissa does not fit
    /// in 96 bits or the scale exceeds 28.
    pub fn try_from_i128_with_scale(num: i128, scale: u32) -> (r: Option<Decimal>)
        ensures
            r is Some <==> -MAX_MANTISSA <= num <= MAX_MANTISSA && scale <= MAX_SCALE,
            r matches Some(d) ==> d.spec_mantissa() == num && d.spec_scale() == scale && d.wf(),
    {
        if -MAX_MANTISSA <= num && num <= MAX_MANTISSA && scale <= MAX_SCALE {
            Some(Decimal { mantissa: num, scale })
        } else {
            None
        }
    }

    /// Zero, with scale 0.
    pub fn zero() -> (r: Decimal)
        ensures
            r == Decimal::from_parts(0, 0),
            r.spec_mantissa() == 0,
            r.spec_scale() == 0,
            r.units() == 0,
            r.wf(),
    {
        let r = Decimal { mantissa: 0, scale: 0 };
        proof {
            r.lemma_units_sign();
        }
        r
    }

    /// The mantissa.
    pub fn mantissa(&self) -> (m: i128)
        ensures
            m == self.spec_mantissa(),
            -MAX_MANTISSA <= m <= MAX_MANTISSA,
    {
        proof {
            use_type_invariant(self);
        }
        self.mantissa
    }

    /// The scale.
    pub fn scale(&self) -> (s: u32)
        ensures
            s == self.spec_scale(),
            s <= MAX_SCALE,
    {
        proof {
            use_type_invariant(self);
        }
        self.scale
    }

    /// Whether the number is zero.
    pub fn is_zero(&self) -> (r: bool)
        ensures
            r <==> self.units() == 0,
    {
        proof {
            use_type_invariant(self);
            self.lemma_units_sign();
        }
        self.mantissa == 0
    }

    /// Whether the number is strictly greater than zero.
    #[verifier::when_used_as_spec(spec_is_positive)]
    pub fn is_positive(&self) -> (r: bool)
        ensures
            r <==> self.units() > 0,
    {
        proof {
            use_type_invariant(self);
            self.lemma_units_sign();
        }
        self.mantissa > 0
    }

    /// Whether the number is strictly less than zero.
    pub fn is_negative(&self) -> (r: bool)
        ensures
            r <==> self.units() < 0,
            self.wf(),
    {
        proof {
            use_type_invariant(self);
            self.lemma_units_sign();
        }
        self.mantissa < 0
    }

    /// The sum, or `None` where it overflows.
    pub fn checked_add(self, other: Decimal) -> (r: Option<Decimal>)
        ensures
            r == decimal_sum(self, other),
            r matches Some(c) ==> c.wf(),
    {
        proof {
            use_type_invariant(&self);
            use_type_invariant(&other);
        }
        outside_checked_add(self, other)
    }

    /// The difference, or `None` where it overflows.
    pub fn checked_sub(self, other: Decimal) -> (r: Option<Decimal>)
        ensures
            r == decimal_difference(self, other),
            r matches Some(c) ==> c.wf(),
    {
        proof {
            use_type_invariant(&self);
            use_type_invariant(&other);
        }
        outside_checked_sub(self, other)
    }

    /// The product, or `None` where it overflows.
    pub fn checked_mul(self, other: Decimal) -> (r: Option<Decimal>)
        ensures
            r == decimal_product(self, other),
            r matches Some(c) ==> c.wf(),
    {
        proof {
            use_type_invariant(&self);
            use_type_invariant(&other);
        }
        outside_checked_mul(self, other)
    }

    /// The quotient, or `None` where the divisor is zero or the quotient
    /// overflows.
    pub fn checked_div(self, other: Decimal) -> (r: Option<Decimal>)
        ensures
            r == decimal_quotient(self, other),
            r matches Some(c) ==> c.wf(),
    {
        proof {
            use_type_invariant(&self);
            use_type_invariant(&other);
        }
        outside_checked_div(self, other)
    }

    /// The smaller of the two numbers; `self` where they are equal.
    pub fn min(self, other: Decimal) -> (r: Decimal)
        ensures
            r == self.spec_min(other),
    {
        proof {
            use_type_invariant(&self);
            use_type_invariant(&other);
        }
        outside_min(self, other)
    }

    /// The smaller of the two numbers; `self` where they are equal.
    pub open spec fn spec_min(self, other: Decimal) -> Decimal {
        if self.units() > other.units() {
            other
        } else {
            self
        }
    }

    /// The number without its sign, at the same scale.
    pub fn abs(&self) -> (r: Decimal)
        ensures
            r == self.spec_abs(),
            r.spec_scale() == self.spec_scale(),
            r.units() >= 0,
            r.units() == self.units() || r.units() == -self.units(),
    {
        proof {
            use_type_invariant(self);
            self.lemma_abs();
        }
        let r = outside_abs(*self);
        proof {
            Decimal::lemma_same_parts(r, self.spec_abs());
        }
        r
    }

    /// The number without its sign, at the same scale.
    pub closed spec fn spec_abs(self) -> Decimal {
        Decimal {
            mantissa: if self.mantissa < 0 {
                (-self.mantissa) as i128
            } else {
                self.mantissa
            },
            scale: self.scale,
        }
    }

    /// The absolute value keeps the scale and drops the sign of the mantissa.
    pub proof fn lemma_abs(self)
        requires
            self.wf(),
        ensures
            self.spec_abs().spec_scale() == self.spec_scale(),
            self.spec_abs().spec_mantissa() == if self.spec_mantissa() < 0 {
                -self.spec_mantissa()
            } else {
                self.spec_mantissa()
            },
            self.spec_abs().wf(),
            self.spec_abs().units() == if self.units() < 0 {
                -self.units()
            } else {
                self.units()
            },
    {
        let p = pow(10, (MAX_SCALE - self.spec_scale()) as nat);
        let m = self.spec_mantissa();
        self.lemma_units_sign();
        assert((-m) * p == -(m * p)) by (nonlinear_arith);
    }

    /// The whole number `n`, with scale 0.
    pub fn from_usize(n: usize) -> (r: Decimal)
        ensures
            r == Decimal::from_parts(n as int, 0),
            r.spec_mantissa() == n,
            r.spec_scale() == 0,
    {
        let r = outside_from_usize(n);
        proof {
            Decimal::lemma_from_parts(n as int, 0);
            Decimal::lemma_same_parts(r, Decimal::from_parts(n as int, 0));
        }
        r
    }

    /// Reads a decimal from text such as `"50000.25"`.
    pub fn parse(text: &str) -> (r: Option<Decimal>)
        ensures
            r == decimal_parse(text@),
    {
        match outside_from_str(text) {
            Ok(d) => Some(d),
            Err(_) => None,
        }
    }

    /// The number of digits before the decimal point; a number below one has
    /// none.
    pub open spec fn whole_digits(self) -> nat {
        let digits = digit_count(vstd::math::abs(self.spec_mantissa()) as nat);
        if digits > self.spec_scale() {
            (digits - self.spec_scale()) as nat
        } else {
            0
        }
    }

    /// The length of the number as text with `places` digits after the
    /// decimal point: the digits before the point, or one zero in their
    /// place, and for any places the point and the places.
    pub open spec fn fixed_text_length(self, places: nat) -> nat {
        let whole = if self.whole_digits() == 0 {
            1
        } else {
            self.whole_digits()
        };
        if places == 0 {
            whole
        } else {
            whole + 1 + places
        }
    }

    /// The number as text with `places` digits after the decimal point, for
    /// at most 28 places and a text of at most 32 characters; `None` beyond
    /// that.
    pub open spec fn fixed_text(self, places: nat) -> Option<Seq<char>> {
        if places <= MAX_SCALE && self.fixed_text_length(places) <= TEXT_CAPACITY {
            Some(decimal_fixed_text(self, places))
        } else {
            None
        }
    }

    /// The number of digits before the decimal point.
    fn count_whole_digits(&self) -> (r: u32)
        ensures
            r == self.whole_digits(),
            r <= 29,
    {
        proof {
            use_type_invariant(self);
            assert(pow(10, 29) == 100_000_000_000_000_000_000_000_000_000) by {
                reveal_with_fuel(pow, 30);
            }
            lemma_digit_count_bound(vstd::math::abs(self.spec_mantissa()) as nat, 29);
        }
        let magnitude: u128 = if self.mantissa < 0 {
            (-self.mantissa) as u128
        } else {
            self.mantissa as u128
        };
        let mut rest: u128 = magnitude;
        let mut digits: u32 = 0;
        while rest > 0
            invariant
                digits + digit_count(rest as nat) == digit_count(magnitude as nat),
                digit_count(magnitude as nat) <= 29,
            decreases rest,
        {
            rest = rest / 10;
            digits = digits + 1;
        }
        if digits > self.scale {
            digits - self.scale
        } else {
            0
        }
    }

    /// The number as text with `places` digits after the decimal point, or
    /// `None` for more than 28 places or a text of more than 32 characters.
    pub fn try_to_fixed(&self, places: usize) -> (r: Option<String>)
        ensures
            match r {
                Some(text) => self.fixed_text(places as nat) == Some(text@),
                None => self.fixed_text(places as nat) is None,
            },
    {
        if places > 28 {
            return None;
        }
        let digits = self.count_whole_digits();
        let whole: usize = if digits == 0 {
            1
        } else {
            digits as usize
        };
        let length: usize = if places == 0 {
            whole
        } else {
            whole + 1 + places
        };
        if length > TEXT_CAPACITY {
            return None;
        }
        Some(self.to_fixed(places))
    }

    /// The number as text, with `places` digits after the decimal point.
    ///
    /// There must be at most 28 places, and the text must not be longer than
    /// 32 characters; [`Self::try_to_fixed`] tests both.
    pub fn to_fixed(&self, places: usize) -> (r: String)
        requires
            places <= MAX_SCALE,
            self.fixed_text_length(places as nat) <= TEXT_CAPACITY,
        ensures
            self.fixed_text(places as nat) == Some(r@),
    {
        proof {
            use_type_invariant(self);
        }
        outside_format_fixed(*self, places)
    }

    /// The number as text, with as many digits after the decimal point as its
    /// scale.
    pub fn to_text(&self) -> (r: String)
        ensures
            r@ == decimal_text(*self),
    {
        proof {
            use_type_invariant(self);
        }
        outside_format(*self)
    }
}

/// A number below `10^k` has at most `k` digits.
proof fn lemma_digit_count_bound(n: nat, k: nat)
    requires
        n < pow(10, k),
    ensures
        digit_count(n) <= k,
    decreases k,
{
    reveal(pow);
    if n > 0 {
        if k == 0 {
            assert(pow(10, 0) == 1);
        } else {
            assert(pow(10, k) == 10 * pow(10, (k - 1) as nat));
            lemma_digit_count_bound(n / 10, (k - 1) as nat);
        }
    }
}

impl PartialEq for Decimal {
    /// Whether the two are the same number, whatever their scales.
    fn eq(&self, other: &Decimal) -> (r: bool) {
        proof {
            use_type_invariant(self);
            use_type_invariant(other);
        }
        match outside_cmp(*self, *other) {
            Ordering::Equal => true,
            _ => false,
        }
    }
}

impl PartialEqSpecImpl for Decimal {
    open spec fn obeys_eq_spec() -> bool {
        true
    }

    open spec fn eq_spec(&self, other: &Decimal) -> bool {
        self.units() == other.units()
    }
}

impl PartialOrd for Decimal {
    /// How the two numbers compare, whatever their scales.
    fn partial_cmp(&self, other: &Decimal) -> (r: Option<Ordering>) {
        proof {
            use_type_invariant(self);
            use_type_invariant(other);
        }
        Some(outside_cmp(*self, *other))
    }
}

impl PartialOrdSpecImpl for Decimal {
    open spec fn obeys_partial_cmp_spec() -> bool {
        true
    }

    open spec fn partial_cmp_spec(&self, other: &Decimal) -> Option<Ordering> {
        Some(ordering_of(self.units(), other.units()))
    }
}

/// `rust_decimal::Decimal::checked_add`: the result is the named sum, and a
/// decimal that comes back is well formed.
#[verifier::external_body]
fn outside_checked_add(a: Decimal, b: Decimal) -> (r: Option<Decimal>)
    requires
        a.wf(),
        b.wf(),
    ensures
        r == decimal_sum(a, b),
        r matches Some(c) ==> c.wf(),
{
    let x = rust_decimal::Decimal::from_i128_with_scale(a.mantissa, a.scale);
    let y = rust_decimal::Decimal::from_i128_with_scale(b.mantissa, b.scale);
    match x.checked_add(y) {
        Some(d) => Some(Decimal { mantissa: d.mantissa(), scale: d.scale() }),
        None => None,
    }
}

/// `rust_decimal::Decimal::checked_sub`: the result is the named difference,
/// and a decimal that comes back is well formed.
#[verifier::external_body]
fn outside_checked_sub(a: Decimal, b: Decimal) -> (r: Option<Decimal>)
    requires
        a.wf(),
        b.wf(),
    ensures
        r == decimal_difference(a, b),
        r matches Some(c) ==> c.wf(),
{
    let x = rust_decimal::Decimal::from_i128_with_scale(a.mantissa, a.scale);
    let y = rust_decimal::Decimal::from_i128_with_scale(b.mantissa, b.scale);
    match x.checked_sub(y) {
        Some(d) => Some(Decimal { mantissa: d.mantissa(), scale: d.scale() }),
        None => None,
    }
}

/// `rust_decimal::Decimal::checked_mul`: the result is the named product, and
/// a decimal that comes back is well formed.
#[verifier::external_body]
fn outside_checked_mul(a: Decimal, b: Decimal) -> (r: Option<Decimal>)
    requires
        a.wf(),
        b.wf(),
    ensures
        r == decimal_product(a, b),
        r matches Some(c) ==> c.wf(),
{
    let x = rust_decimal::Decimal::from_i128_with_scale(a.mantissa, a.scale);
    let y = rust_decimal::Decimal::from_i128_with_scale(b.mantissa, b.scale);
    match x.checked_mul(y) {
        Some(d) => Some(Decimal { mantissa: d.mantissa(), scale: d.scale() }),
        None => None,
    }
}

/// `rust_decimal::Decimal::checked_div`: the result is the named quotient, and
/// a decimal that comes back is well formed.
#[verifier::external_body]
fn outside_checked_div(a: Decimal, b: Decimal) -> (r: Option<Decimal>)
    requires
        a.wf(),
        b.wf(),
    ensures
        r == decimal_quotient(a, b),
        r matches Some(c) ==> c.wf(),
{
    let x = rust_decimal::Decimal::from_i128_with_scale(a.mantissa, a.scale);
    let y = rust_decimal::Decimal::from_i128_with_scale(b.mantissa, b.scale);
    match x.checked_div(y) {
        Some(d) => Some(Decimal { mantissa: d.mantissa(), scale: d.scale() }),
        None => None,
    }
}

/// `rust_decimal`'s `Ord::cmp` for `Decimal`, which orders decimals as
/// numbers: `1.0` and `1.00` are equal.
#[verifier::external_body]
fn outside_cmp(a: Decimal, b: Decimal) -> (r: Ordering)
    requires
        a.wf(),
        b.wf(),
    ensures
        r == ordering_of(a.units(), b.units()),
{
    let x = rust_decimal::Decimal::from_i128_with_scale(a.mantissa, a.scale);
    let y = rust_decimal::Decimal::from_i128_with_scale(b.mantissa, b.scale);
    x.cmp(&y)
}

/// `rust_decimal::Decimal::min`, which returns its second argument where the
/// first is greater as a number and its first argument otherwise.
#[verifier::external_body]
fn outside_min(a: Decimal, b: Decimal) -> (r: Decimal)
    requires
        a.wf(),
        b.wf(),
    ensures
        r == a.spec_min(b),
{
    let x = rust_decimal::Decimal::from_i128_with_scale(a.mantissa, a.scale);
    let y = rust_decimal::Decimal::from_i128_with_scale(b.mantissa, b.scale);
    let d = x.min(y);
    Decimal { mantissa: d.mantissa(), scale: d.scale() }
}

/// `rust_decimal::Decimal::abs`, which clears the sign and leaves mantissa
/// digits and scale as they are.
#[verifier::external_body]
fn outside_abs(a: Decimal) -> (r: Decimal)
    requires
        a.wf(),
    ensures
        r.spec_scale() == a.spec_scale(),
        r.spec_mantissa() == if a.spec_mantissa() < 0 {
            -a.spec_mantissa()
        } else {
            a.spec_mantissa()
        },
{
    let d = rust_decimal::Decimal::from_i128_with_scale(a.mantissa, a.scale).abs();
    Decimal { mantissa: d.mantissa(), scale: d.scale() }
}

/// `rust_decimal`'s `From<usize>` for `Decimal`, which gives the whole number
/// with scale 0.
#[verifier::external_body]
fn outside_from_usize(n: usize) -> (r: Decimal)
    ensures
        r.spec_mantissa() == n,
        r.spec_scale() == 0,
        r.wf(),
{
    let d = rust_decimal::Decimal::from(n);
    Decimal { mantissa: d.mantissa(), scale: d.scale() }
}

/// `rust_decimal`'s `FromStr` for `Decimal`: the named parse where the text is
/// accepted, the crate's error where it is not.
#[verifier::external_body]
fn outside_from_str(text: &str) -> (r: Result<Decimal, rust_decimal::Error>)
    ensures
        r is Ok <==> decimal_parse(text@) is Some,
        r matches Ok(d) ==> decimal_parse(text@) == Some(d) && d.wf(),
{
    match <rust_decimal::Decimal as std::str::FromStr>::from_str(text) {
        Ok(d) => Ok(Decimal { mantissa: d.mantissa(), scale: d.scale() }),
        Err(e) => Err(e),
    }
}

/// `rust_decimal`'s `Display` for `Decimal` with a precision: the named text.
/// It prints into a buffer of 32 characters and panics where they do not
/// suffice, so the text must fit.
#[verifier::external_body]
fn outside_format_fixed(a: Decimal, places: usize) -> (r: String)
    requires
        a.wf(),
        places <= MAX_SCALE,
        a.fixed_text_length(places as nat) <= TEXT_CAPACITY,
    ensures
        r@ == decimal_fixed_text(a, places as nat),
{
    let x = rust_decimal::Decimal::from_i128_with_scale(a.mantissa, a.scale);
    format!("{:.*}", places, x)
}

/// `rust_decimal`'s `Display` for `Decimal` without a precision: the named
/// text.
#[verifier::external_body]
fn outside_format(a: Decimal) -> (r: String)
    requires
        a.wf(),
    ensures
        r@ == decimal_text(a),
{
    let x = rust_decimal::Decimal::from_i128_with_scale(a.mantissa, a.scale);
    format!("{}", x)
}

} // verus!
