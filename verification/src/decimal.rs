//! Exact decimal numbers: a signed integer of at most 96 bits over a power of ten.

use vstd::prelude::*;
use crate::text::Order;

verus! {

/// The largest scale of a decimal: twenty-eight places after the point.
pub const MAX_SCALE: u32 = 28;

/// The largest magnitude of a mantissa: all of 96 bits set.
pub const MAX_MANTISSA: i128 = 79228162514264337593543950335;

/// The number that a [`Decimal`] stands for: `mantissa / 10^scale`.
pub struct DecimalView {
    pub mantissa: int,
    pub scale: nat,
}

impl DecimalView {
    /// What a decimal can hold.
    pub open spec fn valid(self) -> bool {
        self.scale <= MAX_SCALE && -MAX_MANTISSA <= self.mantissa <= MAX_MANTISSA
    }
}

/// An exact decimal number. Two decimals of different scale may stand for one number:
/// the derived `==` tells them apart, [`Decimal::order`] does not.
#[derive(Debug, Clone, Copy, PartialEq, Eq)]
pub struct Decimal {
    pub(crate) mantissa: i128,
    pub(crate) scale: u32,
}

impl View for Decimal {
    type V = DecimalView;

    closed spec fn view(&self) -> DecimalView {
        DecimalView { mantissa: self.mantissa as int, scale: self.scale as nat }
    }
}

/// Ten to the power of `n`.
pub open spec fn pow10(n: nat) -> int
    decreases n,
{
    if n == 0 {
        1
    } else {
        10 * pow10((n - 1) as nat)
    }
}

/// The order of the numbers `a` and `b`: both are brought over the common
/// denominator `10^(a.scale + b.scale)`, and the numerators are compared.
pub open spec fn decimal_order(a: DecimalView, b: DecimalView) -> Order {
    let left = a.mantissa * pow10(b.scale);
    let right = b.mantissa * pow10(a.scale);
    if left < right {
        Order::Less
    } else if left == right {
        Order::Equal
    } else {
        Order::Greater
    }
}

/// The decimal that a parsed pair of mantissa and scale gives, if a decimal can hold it.
pub open spec fn accepted(parsed: Option<(i128, u32)>) -> Option<DecimalView> {
    match parsed {
        Some((mantissa, scale)) => {
            let d = DecimalView { mantissa: mantissa as int, scale: scale as nat };
            if d.valid() {
                Some(d)
            } else {
                None
            }
        },
        None => None,
    }
}

/// The view of a decimal that may be absent.
pub open spec fn view_of(d: Option<Decimal>) -> Option<DecimalView> {
    match d {
        Some(d) => Some(d@),
        None => None,
    }
}

/// What `rust_decimal`'s rounding parser makes of a text: mantissa and scale, or nothing
/// where it rejects the text.
pub uninterp spec fn decimal_from_str(text: Seq<char>) -> Option<(i128, u32)>;

/// What `rust_decimal`'s exact parser makes of a text: mantissa and scale, or nothing
/// where it rejects the text.
pub uninterp spec fn decimal_from_str_exact(text: Seq<char>) -> Option<(i128, u32)>;

/// Calls `rust_decimal::Decimal::from_str` (through `str::parse`). Not proved: the
/// result is the mantissa and scale of the decimal it returns, and is a function of
/// the text alone.
#[verifier::external_body]
fn parse_rounding(text: &str) -> (r: Option<(i128, u32)>)
    ensures
        r == decimal_from_str(text@),
{
    match text.parse::<rust_decimal::Decimal>() {
        Ok(d) => Some((d.mantissa(), d.scale())),
        Err(_) => None,
    }
}

/// Calls `rust_decimal::Decimal::from_str_exact`. Not proved: the result is the
/// mantissa and scale of the decimal it returns, and is a function of the text alone.
#[verifier::external_body]
fn parse_exact(text: &str) -> (r: Option<(i128, u32)>)
    ensures
        r == decimal_from_str_exact(text@),
{
    match rust_decimal::Decimal::from_str_exact(text) {
        Ok(d) => Some((d.mantissa(), d.scale())),
        Err(_) => None,
    }
}

/// Calls `rust_decimal::Decimal::cmp` on the two decimals rebuilt with
/// `from_i128_with_scale`. Not proved: it orders decimals by the numbers they stand
/// for, whatever their scales, and holds zero equal to zero whatever its scale.
#[verifier::external_body]
fn order_by_value(a: &Decimal, b: &Decimal) -> (r: Order)
    requires
        a@.valid(),
        b@.valid(),
    ensures
        r == decimal_order(a@, b@),
{
    let left = rust_decimal::Decimal::from_i128_with_scale(a.mantissa, a.scale);
    let right = rust_decimal::Decimal::from_i128_with_scale(b.mantissa, b.scale);
    match left.cmp(&right) {
        core::cmp::Ordering::Less => Order::Less,
        core::cmp::Ordering::Equal => Order::Equal,
        core::cmp::Ordering::Greater => Order::Greater,
    }
}

impl Decimal {
    /// Every decimal is one that a decimal can hold.
    #[verifier::type_invariant]
    pub closed spec fn well_formed(&self) -> bool {
        self@.valid()
    }

    /// The decimal `num / 10^scale`.
    pub fn new(num: i64, scale: u32) -> (r: Decimal)
        requires
            scale <= MAX_SCALE,
        ensures
            r@ == (DecimalView { mantissa: num as int, scale: scale as nat }),
    {
        Decimal { mantissa: num as i128, scale }
    }

    /// The decimal `mantissa / 10^scale`, if a decimal can hold it.
    pub fn from_parts(mantissa: i128, scale: u32) -> (r: Option<Decimal>)
        ensures
            view_of(r) == accepted(Some((mantissa, scale))),
    {
        if scale <= MAX_SCALE && -MAX_MANTISSA <= mantissa && mantissa <= MAX_MANTISSA {
            Some(Decimal { mantissa, scale })
        } else {
            None
        }
    }

    /// The integer that, divided by ten to the power of the scale, is the number.
    pub fn mantissa(&self) -> (r: i128)
        ensures
            r == self@.mantissa,
            self@.valid(),
    {
        proof {
            use_type_invariant(self);
        }
        self.mantissa
    }

    /// How many places stand after the point.
    pub fn scale(&self) -> (r: u32)
        ensures
            r == self@.scale,
            self@.valid(),
    {
        proof {
            use_type_invariant(self);
        }
        self.scale
    }

    /// Reads a decimal as `rust_decimal` reads a number in a filter: digits beyond
    /// what a decimal holds are rounded away.
    pub fn from_str(text: &str) -> (r: Option<Decimal>)
        ensures
            view_of(r) == accepted(decimal_from_str(text@)),
    {
        match parse_rounding(text) {
            Some((mantissa, scale)) => Decimal::from_parts(mantissa, scale),
            None => None,
        }
    }

    /// Reads a decimal as `rust_decimal` reads it exactly: a text with more digits than
    /// a decimal holds is no decimal.
    pub fn from_str_exact(text: &str) -> (r: Option<Decimal>)
        ensures
            view_of(r) == accepted(decimal_from_str_exact(text@)),
    {
        match parse_exact(text) {
            Some((mantissa, scale)) => Decimal::from_parts(mantissa, scale),
            None => None,
        }
    }

    /// How the number `self` stands to the number `other`.
    pub fn order(&self, other: &Decimal) -> (r: Order)
        ensures
            r == decimal_order(self@, other@),
    {
        proof {
            use_type_invariant(self);
            use_type_invariant(other);
        }
        order_by_value(self, other)
    }
}

} // verus!
