use vstd::prelude::*;
use rust_decimal::Decimal;

verus! {

/// Largest number of fractional digits a decimal may carry.
pub const MAX_SCALE: u32 = 28;

/// Largest magnitude of a mantissa: 96 bits.
pub const MAX_MANTISSA: i128 = 79228162514264337593543950335;

/// An exact decimal number `mantissa / 10^scale`.
///
/// Two values with different representations of the same number (`1.0` and
/// `1.00`) are distinct values of this type.
#[derive(Copy, Debug, PartialEq, Eq, Structural)]
pub struct Dec {
    mantissa: i128,
    scale: u32,
}

impl Clone for Dec {
    fn clone(&self) -> (r: Self)
        ensures
            r == *self,
    {
        *self
    }
}

/// The representation `(mantissa, scale)` of a decimal.
pub type DecView = (int, nat);

impl View for Dec {
    type V = DecView;

    closed spec fn view(&self) -> DecView {
        (self.mantissa as int, self.scale as nat)
    }
}

/// A representation that a `Dec` can hold.
pub open spec fn valid_dec(v: DecView) -> bool {
    -MAX_MANTISSA <= v.0 <= MAX_MANTISSA && v.1 <= MAX_SCALE
}

/// `view` of an optional decimal.
pub open spec fn opt_view(o: Option<Dec>) -> Option<DecView> {
    match o {
        Some(d) => Some(d@),
        None => None,
    }
}

pub open spec fn pow10(n: nat) -> int
    decreases n,
{
    if n == 0 { 1 } else { 10 * pow10((n - 1) as nat) }
}

/// The number `a` is smaller than the number `b`.
pub open spec fn dec_lt_spec(a: DecView, b: DecView) -> bool {
    a.0 * pow10(b.1) < b.0 * pow10(a.1)
}

/// Result of rust_decimal's checked addition on two representations.
pub uninterp spec fn dec_add(a: DecView, b: DecView) -> Option<DecView>;

/// Result of rust_decimal's checked subtraction on two representations.
pub uninterp spec fn dec_sub(a: DecView, b: DecView) -> Option<DecView>;

/// Result of rust_decimal's checked multiplication on two representations.
pub uninterp spec fn dec_mul(a: DecView, b: DecView) -> Option<DecView>;

/// Result of rust_decimal's checked division on two representations.
pub uninterp spec fn dec_div(a: DecView, b: DecView) -> Option<DecView>;

/// Result of rust_decimal's square root of a representation.
pub uninterp spec fn dec_sqrt(a: DecView) -> Option<DecView>;

/// The numbers `a` and `b` are equal, whatever their scales.
pub open spec fn dec_same_spec(a: DecView, b: DecView) -> bool {
    !dec_lt_spec(a, b) && !dec_lt_spec(b, a)
}

impl Dec {
    #[verifier::type_invariant]
    closed spec fn inv(self) -> bool {
        valid_dec(self@)
    }

    /// The decimal `mantissa / 10^scale`; `None` when the mantissa exceeds 96
    /// bits or the scale exceeds `MAX_SCALE`.
    pub fn new(mantissa: i128, scale: u32) -> (r: Option<Dec>)
        ensures
            r is Some <==> valid_dec((mantissa as int, scale as nat)),
            r matches Some(d) ==> d@ == (mantissa as int, scale as nat),
    {
        if scale <= MAX_SCALE && -MAX_MANTISSA <= mantissa && mantissa <= MAX_MANTISSA {
            Some(Dec { mantissa, scale })
        } else {
            None
        }
    }

    /// The integer `n`.
    pub fn from_int(n: i64) -> (r: Dec)
        ensures
            r@ == (n as int, 0nat),
    {
        Dec { mantissa: n as i128, scale: 0 }
    }

    pub fn mantissa(&self) -> (r: i128)
        ensures
            r as int == self@.0,
            -MAX_MANTISSA <= r <= MAX_MANTISSA,
    {
        proof { use_type_invariant(self); }
        self.mantissa
    }

    pub fn scale(&self) -> (r: u32)
        ensures
            r as nat == self@.1,
            r <= MAX_SCALE,
    {
        proof { use_type_invariant(self); }
        self.scale
    }

    pub fn is_zero(&self) -> (r: bool)
        ensures
            r == (self@.0 == 0),
    {
        self.mantissa == 0
    }
}

/// Relies on rust_decimal's `Decimal::checked_add`: the sum, or `None` on
/// overflow.
#[verifier::external_body]
pub(crate) fn checked_add(a: Dec, b: Dec) -> (r: Option<Dec>)
    ensures
        opt_view(r) == dec_add(a@, b@),
{
    let x = Decimal::from_i128_with_scale(a.mantissa, a.scale);
    let y = Decimal::from_i128_with_scale(b.mantissa, b.scale);
    x.checked_add(y).map(|z| Dec { mantissa: z.mantissa(), scale: z.scale() })
}

/// Relies on rust_decimal's `Decimal::checked_sub`: the difference, or `None`
/// on overflow.
#[verifier::external_body]
pub(crate) fn checked_sub(a: Dec, b: Dec) -> (r: Option<Dec>)
    ensures
        opt_view(r) == dec_sub(a@, b@),
{
    let x = Decimal::from_i128_with_scale(a.mantissa, a.scale);
    let y = Decimal::from_i128_with_scale(b.mantissa, b.scale);
    x.checked_sub(y).map(|z| Dec { mantissa: z.mantissa(), scale: z.scale() })
}

/// Relies on rust_decimal's `Decimal::checked_mul`: the product, or `None` on
/// overflow.
#[verifier::external_body]
pub(crate) fn checked_mul(a: Dec, b: Dec) -> (r: Option<Dec>)
    ensures
        opt_view(r) == dec_mul(a@, b@),
{
    let x = Decimal::from_i128_with_scale(a.mantissa, a.scale);
    let y = Decimal::from_i128_with_scale(b.mantissa, b.scale);
    x.checked_mul(y).map(|z| Dec { mantissa: z.mantissa(), scale: z.scale() })
}

/// Relies on rust_decimal's `Decimal::checked_div`: the quotient, or `None`
/// when the divisor is zero or the result overflows.
#[verifier::external_body]
pub(crate) fn checked_div(a: Dec, b: Dec) -> (r: Option<Dec>)
    ensures
        opt_view(r) == dec_div(a@, b@),
        b@.0 == 0 ==> r is None,
{
    let x = Decimal::from_i128_with_scale(a.mantissa, a.scale);
    let y = Decimal::from_i128_with_scale(b.mantissa, b.scale);
    x.checked_div(y).map(|z| Dec { mantissa: z.mantissa(), scale: z.scale() })
}

/// Relies on rust_decimal's ordering of `Decimal` (`<`), which compares the
/// numbers the representations stand for.
#[verifier::external_body]
pub(crate) fn less_than(a: Dec, b: Dec) -> (r: bool)
    ensures
        r == dec_lt_spec(a@, b@),
{
    let x = Decimal::from_i128_with_scale(a.mantissa, a.scale);
    let y = Decimal::from_i128_with_scale(b.mantissa, b.scale);
    x < y
}

/// Relies on rust_decimal's `MathematicalOps::sqrt`: the square root by the
/// Babylonian method, or `None` for a negative number.
#[verifier::external_body]
pub(crate) fn sqrt(a: Dec) -> (r: Option<Dec>)
    ensures
        opt_view(r) == dec_sqrt(a@),
        a@.0 < 0 ==> r is None,
{
    let x = Decimal::from_i128_with_scale(a.mantissa, a.scale);
    rust_decimal::MathematicalOps::sqrt(&x).map(|z| Dec { mantissa: z.mantissa(), scale: z.scale() })
}

/// Whether `a` and `b` stand for the same number.
pub fn same_number(a: Dec, b: Dec) -> (r: bool)
    ensures
        r == dec_same_spec(a@, b@),
{
    !less_than(a, b) && !less_than(b, a)
}

} // verus!
