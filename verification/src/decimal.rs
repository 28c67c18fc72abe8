//! Exact base-10 numbers.
//!
//! A [`Decimal`] is a mantissa and a scale: the number `mantissa / 10^scale`.
//! Parsing, arithmetic and formatting are done by the `rust_decimal` crate;
//! this module hands it mantissa and scale and takes mantissa and scale back.

use vstd::arithmetic::mul::{
    lemma_mul_equality_converse, lemma_mul_is_associative, lemma_mul_is_commutative,
    lemma_mul_strict_inequality,
};
use vstd::arithmetic::power::{lemma_pow0, lemma_pow1, lemma_pow_adds, lemma_pow_positive, pow};
use vstd::prelude::*;
use vstd::std_specs::cmp::PartialEqSpecImpl;
use vstd::std_specs::convert::FromSpecImpl;
use vstd::utf8::is_ascii_chars;

verus! {

/// Largest magnitude of a mantissa: `2^96 - 1`.
pub const MAX_MANTISSA: i128 = 0xFFFF_FFFF_FFFF_FFFF_FFFF_FFFF;

/// Largest scale: a number has at most 28 digits after the point.
pub const MAX_SCALE: u32 = 28;

/// The number `mantissa / 10^scale`.
#[derive(Clone, Copy, Debug)]
pub struct Decimal {
    pub mantissa: i128,
    pub scale: u32,
}

/// The result of `rust_decimal::Decimal::from_str` on `text`, as mantissa and
/// scale; `None` where it reports an error.
pub uninterp spec fn decimal_parsed(text: Seq<char>) -> Option<Decimal>;

/// The result of `rust_decimal::Decimal::checked_add`; `None` on overflow.
pub uninterp spec fn decimal_sum(left: Decimal, right: Decimal) -> Option<Decimal>;

/// The result of `rust_decimal::Decimal::checked_sub`; `None` on overflow.
pub uninterp spec fn decimal_difference(left: Decimal, right: Decimal) -> Option<Decimal>;

/// The result of `rust_decimal::Decimal::checked_mul`; `None` on overflow.
pub uninterp spec fn decimal_product(left: Decimal, right: Decimal) -> Option<Decimal>;

/// The result of `rust_decimal::Decimal::checked_div`; `None` on overflow or
/// where `right` is zero.
pub uninterp spec fn decimal_quotient(left: Decimal, right: Decimal) -> Option<Decimal>;

/// The text that `rust_decimal::Decimal`'s `Display` writes for a number.
pub uninterp spec fn decimal_text(value: Decimal) -> Seq<char>;

impl Decimal {
    /// A mantissa of at most 96 bits and a scale of at most 28.
    pub open spec fn wf(self) -> bool {
        &&& -MAX_MANTISSA <= self.mantissa <= MAX_MANTISSA
        &&& self.scale <= MAX_SCALE
    }

    /// Whether two numbers are the same number, whatever their scales:
    /// `1.0` and `1.00` are.
    pub open spec fn same_value(self, other: Decimal) -> bool {
        self.mantissa * pow(10, other.scale as nat) == other.mantissa * pow(10, self.scale as nat)
    }

    pub open spec fn spec_zero() -> Decimal {
        Decimal { mantissa: 0, scale: 0 }
    }

    pub open spec fn spec_is_zero(self) -> bool {
        self.mantissa == 0
    }

    /// The number zero, with scale 0.
    #[verifier::when_used_as_spec(spec_zero)]
    pub fn zero() -> (r: Decimal)
        ensures
            r == Decimal::spec_zero(),
            r.wf(),
    {
        Decimal { mantissa: 0, scale: 0 }
    }

    /// Whether the number is zero, whatever its scale.
    #[verifier::when_used_as_spec(spec_is_zero)]
    pub fn is_zero(self) -> (r: bool)
        ensures
            r == self.spec_is_zero(),
    {
        self.mantissa == 0
    }

    /// The number with the given mantissa and scale, if both are in range.
    pub fn new(mantissa: i128, scale: u32) -> (r: Option<Decimal>)
        ensures
            r == if (Decimal { mantissa, scale }).wf() {
                Some(Decimal { mantissa, scale })
            } else {
                None
            },
    {
        if -MAX_MANTISSA <= mantissa && mantissa <= MAX_MANTISSA && scale <= MAX_SCALE {
            Some(Decimal { mantissa, scale })
        } else {
            None
        }
    }

    /// Reads a number from text, as `rust_decimal` reads it.
    pub fn from_str(text: &str) -> (r: Result<Decimal, rust_decimal::Error>)
        ensures
            r is Ok <==> decimal_parsed(text@) is Some,
            r matches Ok(d) ==> decimal_parsed(text@) == Some(d) && d.wf(),
    {
        parse_decimal(text)
    }

    /// The number as text, as `rust_decimal` writes it.
    pub fn to_string(&self) -> (r: String)
        requires
            self.wf(),
        ensures
            r@ == decimal_text(*self),
            is_ascii_chars(r@),
    {
        format_decimal(*self)
    }
}

/// Two decimals are equal where they are the same number: the scales need
/// not agree.
impl PartialEq for Decimal {
    fn eq(&self, other: &Decimal) -> (r: bool) {
        if self.scale <= other.scale {
            proof {
                lemma_same_value_by_shift(*self, *other);
            }
            scaled_equals(self.mantissa, other.scale - self.scale, other.mantissa)
        } else {
            proof {
                lemma_same_value_by_shift(*other, *self);
            }
            scaled_equals(other.mantissa, self.scale - other.scale, self.mantissa)
        }
    }
}

impl PartialEqSpecImpl for Decimal {
    open spec fn obeys_eq_spec() -> bool {
        true
    }

    open spec fn eq_spec(&self, other: &Decimal) -> bool {
        self.same_value(*other)
    }
}

/// A whole number as a decimal of scale 0.
impl From<i32> for Decimal {
    fn from(value: i32) -> (r: Decimal) {
        Decimal { mantissa: value as i128, scale: 0 }
    }
}

impl FromSpecImpl<i32> for Decimal {
    open spec fn obeys_from_spec() -> bool {
        true
    }

    open spec fn from_spec(value: i32) -> Decimal {
        Decimal { mantissa: value as i128, scale: 0 }
    }
}

/// Numbers of scales `s <= t` are the same number where the mantissa of the
/// first, times `10^(t - s)`, is the mantissa of the second.
pub proof fn lemma_same_value_by_shift(low: Decimal, high: Decimal)
    requires
        low.scale <= high.scale,
    ensures
        low.same_value(high) == (low.mantissa * pow(10, (high.scale - low.scale) as nat)
            == high.mantissa),
        high.same_value(low) == low.same_value(high),
{
    let s = low.scale as nat;
    let d = (high.scale - low.scale) as nat;
    let ps = pow(10, s);
    let pd = pow(10, d);
    lemma_pow_adds(10, s, d);
    lemma_pow_positive(10, s);
    assert(pow(10, high.scale as nat) == ps * pd);
    // low.m * (ps * pd) == high.m * ps  <==>  low.m * pd == high.m
    lemma_mul_is_commutative(ps, pd);
    lemma_mul_is_associative(low.mantissa as int, pd, ps);
    lemma_mul_is_commutative(low.mantissa * pd, ps);
    lemma_mul_is_commutative(high.mantissa as int, ps);
    assert(low.mantissa * (ps * pd) == ps * (low.mantissa * pd));
    if ps * (low.mantissa * pd) == ps * high.mantissa {
        lemma_mul_equality_converse(ps, low.mantissa * pd, high.mantissa as int);
    }
}

/// Whether `low * 10^shift` is `high`.
fn scaled_equals(low: i128, shift: u32, high: i128) -> (r: bool)
    ensures
        r == (low * pow(10, shift as nat) == high),
{
    let mut value = low;
    let mut i: u32 = 0;
    proof {
        lemma_pow0(10);
    }
    while i < shift
        invariant
            i <= shift,
            value == low * pow(10, i as nat),
        decreases shift - i,
    {
        proof {
            let rest = (shift - i) as nat;
            lemma_pow_adds(10, i as nat, rest);
            lemma_pow_adds(10, 1, (rest - 1) as nat);
            lemma_pow1(10);
            lemma_pow_positive(10, (rest - 1) as nat);
            lemma_mul_is_associative(low as int, pow(10, i as nat), pow(10, rest));
            // low * 10^shift == value * 10 * 10^(rest - 1)
            lemma_mul_is_associative(value as int, 10, pow(10, (rest - 1) as nat));
            lemma_pow_adds(10, i as nat, 1);
            lemma_mul_is_associative(low as int, pow(10, i as nat), 10);
        }
        if value == 0 {
            return high == 0;
        }
        match value.checked_mul(10) {
            Some(next) => {
                value = next;
            },
            None => {
                proof {
                    let tail = pow(10, (shift - i - 1) as nat);
                    let grown = value * 10;
                    assert(low * pow(10, shift as nat) == grown * tail);
                    if grown > i128::MAX {
                        if tail > 1 {
                            lemma_mul_strict_inequality(1, tail, grown);
                            lemma_mul_is_commutative(grown, tail);
                        }
                        assert(grown * tail >= grown);
                    } else {
                        if tail > 1 {
                            lemma_mul_strict_inequality(1, tail, -grown);
                            lemma_mul_is_commutative(-grown, tail);
                            assert((-grown) * tail == -(grown * tail)) by (nonlinear_arith);
                        }
                        assert(grown * tail <= grown);
                    }
                }
                return false;
            },
        }
        i += 1;
    }
    value == high
}

/// The error of `rust_decimal`. Nothing is read from it.
#[verifier::external_type_specification]
#[verifier::external_body]
pub struct ExDecimalError(rust_decimal::Error);

/// Calls `rust_decimal::Decimal::from_str` and takes mantissa and scale of
/// what it returns. The contract names the result, and claims that the
/// mantissa has at most 96 bits and the scale is at most 28, as the crate
/// documents of every `rust_decimal::Decimal`.
#[verifier::external_body]
pub(crate) fn parse_decimal(text: &str) -> (r: Result<Decimal, rust_decimal::Error>)
    ensures
        r is Ok <==> decimal_parsed(text@) is Some,
        r matches Ok(d) ==> decimal_parsed(text@) == Some(d) && d.wf(),
{
    match <rust_decimal::Decimal as core::str::FromStr>::from_str(text) {
        Ok(d) => Ok(Decimal { mantissa: d.mantissa(), scale: d.scale() }),
        Err(e) => Err(e),
    }
}

/// Calls `rust_decimal::Decimal::checked_add`, which returns `None` on
/// overflow. The contract names the result and claims that a sum is in range.
#[verifier::external_body]
pub(crate) fn add_decimals(left: Decimal, right: Decimal) -> (r: Option<Decimal>)
    requires
        left.wf(),
        right.wf(),
    ensures
        r == decimal_sum(left, right),
        r matches Some(d) ==> d.wf(),
{
    let x = rust_decimal::Decimal::from_i128_with_scale(left.mantissa, left.scale);
    let y = rust_decimal::Decimal::from_i128_with_scale(right.mantissa, right.scale);
    match x.checked_add(y) {
        Some(d) => Some(Decimal { mantissa: d.mantissa(), scale: d.scale() }),
        None => None,
    }
}

/// Calls `rust_decimal::Decimal::checked_sub`, which returns `None` on
/// overflow. The contract names the result and claims that a difference is in
/// range.
#[verifier::external_body]
pub(crate) fn subtract_decimals(left: Decimal, right: Decimal) -> (r: Option<Decimal>)
    requires
        left.wf(),
        right.wf(),
    ensures
        r == decimal_difference(left, right),
        r matches Some(d) ==> d.wf(),
{
    let x = rust_decimal::Decimal::from_i128_with_scale(left.mantissa, left.scale);
    let y = rust_decimal::Decimal::from_i128_with_scale(right.mantissa, right.scale);
    match x.checked_sub(y) {
        Some(d) => Some(Decimal { mantissa: d.mantissa(), scale: d.scale() }),
        None => None,
    }
}

/// Calls `rust_decimal::Decimal::checked_mul`, which returns `None` on
/// overflow. The contract names the result and claims that a product is in
/// range.
#[verifier::external_body]
pub(crate) fn multiply_decimals(left: Decimal, right: Decimal) -> (r: Option<Decimal>)
    requires
        left.wf(),
        right.wf(),
    ensures
        r == decimal_product(left, right),
        r matches Some(d) ==> d.wf(),
{
    let x = rust_decimal::Decimal::from_i128_with_scale(left.mantissa, left.scale);
    let y = rust_decimal::Decimal::from_i128_with_scale(right.mantissa, right.scale);
    match x.checked_mul(y) {
        Some(d) => Some(Decimal { mantissa: d.mantissa(), scale: d.scale() }),
        None => None,
    }
}

/// Calls `rust_decimal::Decimal::checked_div`, which returns `None` on
/// overflow and for a zero divisor. The contract names the result and claims
/// that a quotient is in range.
#[verifier::external_body]
pub(crate) fn divide_decimals(left: Decimal, right: Decimal) -> (r: Option<Decimal>)
    requires
        left.wf(),
        right.wf(),
    ensures
        r == decimal_quotient(left, right),
        r matches Some(d) ==> d.wf(),
{
    let x = rust_decimal::Decimal::from_i128_with_scale(left.mantissa, left.scale);
    let y = rust_decimal::Decimal::from_i128_with_scale(right.mantissa, right.scale);
    match x.checked_div(y) {
        Some(d) => Some(Decimal { mantissa: d.mantissa(), scale: d.scale() }),
        None => None,
    }
}

/// Calls `to_string` of `rust_decimal::Decimal`, that is its `Display`. The
/// contract names the text and claims that it is ASCII: the crate writes
/// digits, a point and a minus sign.
#[verifier::external_body]
pub(crate) fn format_decimal(value: Decimal) -> (r: String)
    requires
        value.wf(),
    ensures
        r@ == decimal_text(value),
        is_ascii_chars(r@),
{
    rust_decimal::Decimal::from_i128_with_scale(value.mantissa, value.scale).to_string()
}

} // verus!
