//! Exact decimal numbers: a signed mantissa of at most 96 bits and a count of
//! fractional digits, the representation used by `rust_decimal`. Arithmetic
//! and rendering are done by `rust_decimal` itself.

use vstd::prelude::*;

verus! {

/// Largest magnitude of a mantissa, 2^96 - 1.
pub const MAX_MANTISSA: i128 = 79228162514264337593543950335;

/// Largest number of fractional digits.
pub const MAX_SCALE: u32 = 28;

/// Ten to the power `n`.
pub open spec fn pow10(n: nat) -> int
    decreases n,
{
    if n == 0 {
        1
    } else {
        10 * pow10((n - 1) as nat)
    }
}

/// The value `a.0 / 10^a.1` is smaller than the value `b.0 / 10^b.1`.
pub open spec fn value_lt(a: (int, nat), b: (int, nat)) -> bool {
    a.0 * pow10(b.1) < b.0 * pow10(a.1)
}

/// The value `a.0 / 10^a.1` is at most the value `b.0 / 10^b.1`.
pub open spec fn value_le(a: (int, nat), b: (int, nat)) -> bool {
    a.0 * pow10(b.1) <= b.0 * pow10(a.1)
}

/// The two pairs denote the same value.
pub open spec fn value_eq(a: (int, nat), b: (int, nat)) -> bool {
    a.0 * pow10(b.1) == b.0 * pow10(a.1)
}

/// What `rust_decimal` computes for `a - b`, or `None` where it overflows.
pub uninterp spec fn difference_of(a: (int, nat), b: (int, nat)) -> Option<(int, nat)>;

/// What `rust_decimal` computes for `a * b`, or `None` where it overflows.
pub uninterp spec fn product_of(a: (int, nat), b: (int, nat)) -> Option<(int, nat)>;

/// What `rust_decimal` computes for `a / b` (rounded to at most 28 fractional
/// digits), or `None` where `b` is zero or the quotient overflows.
pub uninterp spec fn quotient_of(a: (int, nat), b: (int, nat)) -> Option<(int, nat)>;

/// The text that `rust_decimal` renders for a value.
pub uninterp spec fn decimal_text(a: (int, nat)) -> Seq<char>;

/// The text that `rust_decimal` renders for a value with exactly two
/// fractional digits (`{:.2}`).
pub uninterp spec fn decimal_text_2dp(a: (int, nat)) -> Seq<char>;

/// The character of a decimal digit.
pub open spec fn digit_char(d: nat) -> char {
    if d == 0 {
        '0'
    } else if d == 1 {
        '1'
    } else if d == 2 {
        '2'
    } else if d == 3 {
        '3'
    } else if d == 4 {
        '4'
    } else if d == 5 {
        '5'
    } else if d == 6 {
        '6'
    } else if d == 7 {
        '7'
    } else if d == 8 {
        '8'
    } else {
        '9'
    }
}

/// The decimal digits of `n`, most significant first, without leading zeros.
pub open spec fn decimal_digits(n: nat) -> Seq<char>
    decreases n,
{
    if n < 10 {
        seq![digit_char(n)]
    } else {
        decimal_digits(n / 10).push(digit_char(n % 10))
    }
}

/// The decimal text of a count.
/// Relies on `Display for u32`, which writes the plain decimal digits.
#[verifier::external_body]
pub(crate) fn count_text(n: u32) -> (r: String)
    ensures
        r@ == decimal_digits(n as nat),
{
    n.to_string()
}

/// The value held by an optional decimal.
pub open spec fn opt_view(r: Option<Dec>) -> Option<(int, nat)> {
    match r {
        Some(d) => Some(d@),
        None => None,
    }
}

/// A decimal number `mantissa / 10^scale`. Every value keeps its mantissa
/// within `MAX_MANTISSA` and its scale within `MAX_SCALE`, so that
/// `rust_decimal::Decimal::from_i128_with_scale` accepts it without panicking.
#[derive(Clone, Copy, Debug)]
pub struct Dec {
    mantissa: i128,
    scale: u32,
}

impl View for Dec {
    type V = (int, nat);

    closed spec fn view(&self) -> (int, nat) {
        (self.mantissa as int, self.scale as nat)
    }
}

/// The pair is a mantissa and a scale that a `Dec` can hold.
pub open spec fn representable(a: (int, nat)) -> bool {
    -MAX_MANTISSA <= a.0 <= MAX_MANTISSA && a.1 <= MAX_SCALE
}

/// Zero, with no fractional digits.
pub closed spec fn zero_dec() -> Dec {
    Dec { mantissa: 0, scale: 0 }
}

/// Zero is written with mantissa 0 and scale 0.
pub proof fn lemma_zero_dec()
    ensures
        zero_dec()@ == (0int, 0nat),
{
}

impl Dec {
    #[verifier::type_invariant]
    spec fn inv(self) -> bool {
        -MAX_MANTISSA <= self.mantissa <= MAX_MANTISSA && self.scale <= MAX_SCALE
    }

    /// `num / 10^scale`.
    pub fn new(num: i64, scale: u32) -> (r: Dec)
        requires
            scale <= MAX_SCALE,
        ensures
            r@ == (num as int, scale as nat),
    {
        Dec { mantissa: num as i128, scale }
    }

    /// The decimal with the given mantissa and scale, if it is representable.
    pub fn from_parts(mantissa: i128, scale: u32) -> (r: Option<Dec>)
        ensures
            r matches Some(d) ==> d@ == (mantissa as int, scale as nat),
            r is Some <==> representable((mantissa as int, scale as nat)),
    {
        if -MAX_MANTISSA <= mantissa && mantissa <= MAX_MANTISSA && scale <= MAX_SCALE {
            Some(Dec { mantissa, scale })
        } else {
            None
        }
    }

    /// Zero.
    pub fn zero() -> (r: Dec)
        ensures
            r == zero_dec(),
            r@ == (0int, 0nat),
    {
        Dec { mantissa: 0, scale: 0 }
    }

    pub fn mantissa(&self) -> (r: i128)
        ensures
            r == self@.0,
    {
        self.mantissa
    }

    pub fn scale(&self) -> (r: u32)
        ensures
            r == self@.1,
    {
        self.scale
    }

    pub fn is_zero(&self) -> (r: bool)
        ensures
            r == (self@.0 == 0),
    {
        self.mantissa == 0
    }

    /// The magnitude of the value.
    pub fn abs(&self) -> (r: Dec)
        ensures
            r@ == (if self@.0 < 0 { -self@.0 } else { self@.0 }, self@.1),
    {
        proof {
            use_type_invariant(self);
        }
        if self.mantissa < 0 {
            Dec { mantissa: -self.mantissa, scale: self.scale }
        } else {
            *self
        }
    }

    /// Orders two values numerically.
    /// Relies on `Ord for rust_decimal::Decimal`, which compares by value
    /// whatever the scales.
    #[verifier::external_body]
    pub(crate) fn compare(&self, other: &Dec) -> (r: core::cmp::Ordering)
        ensures
            (r == core::cmp::Ordering::Less) == value_lt(self@, other@),
            (r == core::cmp::Ordering::Equal) == value_eq(self@, other@),
            (r == core::cmp::Ordering::Greater) == value_lt(other@, self@),
    {
        let a = rust_decimal::Decimal::from_i128_with_scale(self.mantissa, self.scale);
        let b = rust_decimal::Decimal::from_i128_with_scale(other.mantissa, other.scale);
        a.cmp(&b)
    }

    /// `self - other`, or `None` on overflow.
    /// Relies on `rust_decimal::Decimal::checked_sub`.
    #[verifier::external_body]
    pub(crate) fn checked_sub(&self, other: &Dec) -> (r: Option<Dec>)
        ensures
            r matches Some(d) ==> difference_of(self@, other@) == Some(d@),
            r is None ==> difference_of(self@, other@) is None,
    {
        let a = rust_decimal::Decimal::from_i128_with_scale(self.mantissa, self.scale);
        let b = rust_decimal::Decimal::from_i128_with_scale(other.mantissa, other.scale);
        a.checked_sub(b).map(|d| Dec { mantissa: d.mantissa(), scale: d.scale() })
    }

    /// `self * other`, or `None` on overflow.
    /// Relies on `rust_decimal::Decimal::checked_mul`.
    #[verifier::external_body]
    pub(crate) fn checked_mul(&self, other: &Dec) -> (r: Option<Dec>)
        ensures
            r matches Some(d) ==> product_of(self@, other@) == Some(d@),
            r is None ==> product_of(self@, other@) is None,
    {
        let a = rust_decimal::Decimal::from_i128_with_scale(self.mantissa, self.scale);
        let b = rust_decimal::Decimal::from_i128_with_scale(other.mantissa, other.scale);
        a.checked_mul(b).map(|d| Dec { mantissa: d.mantissa(), scale: d.scale() })
    }

    /// `self / other`, or `None` where `other` is zero or on overflow.
    /// Relies on `rust_decimal::Decimal::checked_div`, which returns `None`
    /// for a zero divisor.
    #[verifier::external_body]
    pub(crate) fn checked_div(&self, other: &Dec) -> (r: Option<Dec>)
        ensures
            r matches Some(d) ==> quotient_of(self@, other@) == Some(d@),
            r is None ==> quotient_of(self@, other@) is None,
            other@.0 == 0 ==> r is None,
    {
        let a = rust_decimal::Decimal::from_i128_with_scale(self.mantissa, self.scale);
        let b = rust_decimal::Decimal::from_i128_with_scale(other.mantissa, other.scale);
        a.checked_div(b).map(|d| Dec { mantissa: d.mantissa(), scale: d.scale() })
    }

    /// The rendering of the value rounded to two fractional digits.
    /// Relies on `Display for rust_decimal::Decimal` with a precision of 2.
    #[verifier::external_body]
    pub(crate) fn to_text_2dp(&self) -> (r: String)
        ensures
            r@ == decimal_text_2dp(self@),
    {
        format!("{:.2}", rust_decimal::Decimal::from_i128_with_scale(self.mantissa, self.scale))
    }

    /// The decimal rendering of the value.
    /// Relies on `Display for rust_decimal::Decimal`.
    #[verifier::external_body]
    pub(crate) fn to_text(&self) -> (r: String)
        ensures
            r@ == decimal_text(self@),
    {
        rust_decimal::Decimal::from_i128_with_scale(self.mantissa, self.scale).to_string()
    }
}

} // verus!
