//! Base-10 decimal numbers: a signed 96-bit mantissa and a scale of at most 28
//! digits. Arithmetic is done by `rust_decimal`; comparison and the tests on the
//! sign are stated over the exact value.

use vstd::prelude::*;

verus! {

/// Largest magnitude of a mantissa: 2^96 - 1.
pub const MAX_MANTISSA: i128 = 0xFFFF_FFFF_FFFF_FFFF_FFFF_FFFF;

/// Largest scale: the number of digits after the decimal point.
pub const MAX_SCALE: u32 = 28;

/// Ten to the power `n`.
pub open spec fn pow10(n: nat) -> int
    decreases n,
{
    if n == 0 {
        1
    } else {
        10 * pow10((n - 1) as nat)
    }
}

/// What `rust_decimal` returns for `a + b`, where `a` has mantissa `am` and scale
/// `asc`, and `b` has mantissa `bm` and scale `bsc`: the mantissa and scale of the
/// sum, or `None` where the sum does not fit.
pub uninterp spec fn decimal_sum(am: int, asc: nat, bm: int, bsc: nat) -> Option<(int, nat)>;

/// What `rust_decimal` returns for `a - b`, in the same terms as [`decimal_sum`].
pub uninterp spec fn decimal_difference(am: int, asc: nat, bm: int, bsc: nat) -> Option<(int, nat)>;

/// What `rust_decimal` returns for `a * b`, in the same terms as [`decimal_sum`].
pub uninterp spec fn decimal_product(am: int, asc: nat, bm: int, bsc: nat) -> Option<(int, nat)>;

/// What `rust_decimal` prints for the decimal with this mantissa and scale.
pub uninterp spec fn decimal_text(mantissa: int, scale: nat) -> Seq<char>;

/// A decimal number `mantissa / 10^scale`.
#[derive(Clone, Copy, Debug)]
pub struct Decimal {
    mantissa: i128,
    scale: u32,
}

impl Decimal {
    /// The bounds every `Decimal` keeps.
    #[verifier::type_invariant]
    pub closed spec fn in_range(self) -> bool {
        &&& -MAX_MANTISSA <= self.mantissa <= MAX_MANTISSA
        &&& self.scale <= MAX_SCALE
    }

    pub closed spec fn spec_mantissa(&self) -> i128 {
        self.mantissa
    }

    pub closed spec fn spec_scale(&self) -> u32 {
        self.scale
    }

    /// The number scaled by 10^28, which is an integer: two decimals are equal
    /// as numbers exactly when their values are equal.
    pub open spec fn value(self) -> int {
        self.mantissa() * pow10((MAX_SCALE - self.scale()) as nat)
    }

    /// The decimal with the given mantissa and scale, as a specification value.
    pub closed spec fn from_parts(mantissa: int, scale: nat) -> Decimal {
        Decimal { mantissa: mantissa as i128, scale: scale as u32 }
    }

    /// The sum as `rust_decimal` computes it.
    pub open spec fn add_spec(self, other: Decimal) -> Option<Decimal> {
        match decimal_sum(
            self.mantissa() as int,
            self.scale() as nat,
            other.mantissa() as int,
            other.scale() as nat,
        ) {
            Some((m, s)) => Some(Decimal::from_parts(m, s)),
            None => None,
        }
    }

    /// The difference as `rust_decimal` computes it.
    pub open spec fn sub_spec(self, other: Decimal) -> Option<Decimal> {
        match decimal_difference(
            self.mantissa() as int,
            self.scale() as nat,
            other.mantissa() as int,
            other.scale() as nat,
        ) {
            Some((m, s)) => Some(Decimal::from_parts(m, s)),
            None => None,
        }
    }

    /// The product as `rust_decimal` computes it.
    pub open spec fn mul_spec(self, other: Decimal) -> Option<Decimal> {
        match decimal_product(
            self.mantissa() as int,
            self.scale() as nat,
            other.mantissa() as int,
            other.scale() as nat,
        ) {
            Some((m, s)) => Some(Decimal::from_parts(m, s)),
            None => None,
        }
    }

    /// The number as it is printed.
    pub open spec fn text(self) -> Seq<char> {
        decimal_text(self.mantissa() as int, self.scale() as nat)
    }

    pub open spec fn spec_is_zero(&self) -> bool {
        self.mantissa() == 0
    }

    pub open spec fn spec_is_positive(&self) -> bool {
        self.mantissa() > 0
    }

    /// Zero, with scale 0.
    pub fn zero() -> (r: Decimal)
        ensures
            r.mantissa() == 0,
            r.scale() == 0,
            r == Decimal::from_parts(0, 0),
    {
        Decimal { mantissa: 0, scale: 0 }
    }

    /// The decimal `mantissa / 10^scale`, or `None` where the mantissa needs more
    /// than 96 bits or the scale is over 28.
    pub fn new(mantissa: i128, scale: u32) -> (r: Option<Decimal>)
        ensures
            r is Some <==> -MAX_MANTISSA <= mantissa <= MAX_MANTISSA && scale <= MAX_SCALE,
            r matches Some(d) ==> d.mantissa() == mantissa && d.scale() == scale && d
                == Decimal::from_parts(mantissa as int, scale as nat),
    {
        if scale <= MAX_SCALE && mantissa <= MAX_MANTISSA && mantissa >= -MAX_MANTISSA {
            Some(Decimal { mantissa, scale })
        } else {
            None
        }
    }

    #[verifier::when_used_as_spec(spec_mantissa)]
    pub fn mantissa(&self) -> (r: i128)
        ensures
            r == self.mantissa(),
            -MAX_MANTISSA <= r <= MAX_MANTISSA,
    {
        proof {
            use_type_invariant(self);
        }
        self.mantissa
    }

    #[verifier::when_used_as_spec(spec_scale)]
    pub fn scale(&self) -> (r: u32)
        ensures
            r == self.scale(),
            r <= MAX_SCALE,
    {
        proof {
            use_type_invariant(self);
        }
        self.scale
    }

    /// Whether the number is zero.
    #[verifier::when_used_as_spec(spec_is_zero)]
    pub fn is_zero(&self) -> (r: bool)
        ensures
            r == self.is_zero(),
            r <==> self.value() == 0,
    {
        proof {
            lemma_value_sign(*self);
        }
        self.mantissa == 0
    }

    /// Whether the number is greater than zero.
    #[verifier::when_used_as_spec(spec_is_positive)]
    pub fn is_positive(&self) -> (r: bool)
        ensures
            r == self.is_positive(),
            r <==> self.value() > 0,
    {
        proof {
            lemma_value_sign(*self);
        }
        self.mantissa > 0
    }

    /// Whether `self` is less than `other` as a number.
    pub fn lt(&self, other: &Decimal) -> (r: bool)
        ensures
            r <==> self.value() < other.value(),
    {
        proof {
            use_type_invariant(self);
            use_type_invariant(other);
        }
        less_than(*self, *other)
    }

    /// Whether `self` is at most `other` as a number.
    pub fn le(&self, other: &Decimal) -> (r: bool)
        ensures
            r <==> self.value() <= other.value(),
    {
        !other.lt(self)
    }

    /// Whether the two are the same number, whatever their scales.
    pub fn same_value(&self, other: &Decimal) -> (r: bool)
        ensures
            r <==> self.value() == other.value(),
    {
        !self.lt(other) && !other.lt(self)
    }

    /// The number as text, with as many digits after the point as its scale.
    pub fn to_text(&self) -> (r: String)
        ensures
            r@ == self.text(),
    {
        proof {
            use_type_invariant(self);
        }
        printed(*self)
    }

    /// The sum, or `None` where it does not fit.
    pub fn checked_add(&self, other: &Decimal) -> (r: Option<Decimal>)
        ensures
            r == self.add_spec(*other),
    {
        proof {
            use_type_invariant(self);
            use_type_invariant(other);
        }
        sum_of(*self, *other)
    }

    /// The difference, or `None` where it does not fit.
    pub fn checked_sub(&self, other: &Decimal) -> (r: Option<Decimal>)
        ensures
            r == self.sub_spec(*other),
    {
        proof {
            use_type_invariant(self);
            use_type_invariant(other);
        }
        difference_of(*self, *other)
    }

    /// The product, or `None` where it does not fit.
    pub fn checked_mul(&self, other: &Decimal) -> (r: Option<Decimal>)
        ensures
            r == self.mul_spec(*other),
    {
        proof {
            use_type_invariant(self);
            use_type_invariant(other);
        }
        product_of(*self, *other)
    }
}

/// Ten to any power is positive.
pub proof fn lemma_pow10_positive(n: nat)
    ensures
        pow10(n) > 0,
    decreases n,
{
    if n > 0 {
        lemma_pow10_positive((n - 1) as nat);
    }
}

/// The value of a decimal has the sign of its mantissa.
pub proof fn lemma_value_sign(d: Decimal)
    ensures
        d.value() == 0 <==> d.mantissa() == 0,
        d.value() > 0 <==> d.mantissa() > 0,
        d.value() < 0 <==> d.mantissa() < 0,
{
    let p = pow10((MAX_SCALE - d.scale()) as nat);
    lemma_pow10_positive((MAX_SCALE - d.scale()) as nat);
    let m = d.mantissa() as int;
    assert(m == 0 ==> m * p == 0) by (nonlinear_arith);
    assert(m > 0 && p > 0 ==> m * p > 0) by (nonlinear_arith);
    assert(m < 0 && p > 0 ==> m * p < 0) by (nonlinear_arith);
}

/// `rust_decimal::Decimal`'s `<`: the order of the two numbers, which it finds
/// by bringing both mantissas to one scale.
#[verifier::external_body]
fn less_than(a: Decimal, b: Decimal) -> (r: bool)
    requires
        a.in_range(),
        b.in_range(),
    ensures
        r <==> a.value() < b.value(),
{
    let x = rust_decimal::Decimal::from_i128_with_scale(a.mantissa, a.scale);
    let y = rust_decimal::Decimal::from_i128_with_scale(b.mantissa, b.scale);
    x < y
}

/// `rust_decimal::Decimal`'s `Display`: the text is named.
#[verifier::external_body]
fn printed(a: Decimal) -> (r: String)
    requires
        a.in_range(),
    ensures
        r@ == decimal_text(a.mantissa() as int, a.scale() as nat),
{
    let x = rust_decimal::Decimal::from_i128_with_scale(a.mantissa, a.scale);
    format!("{}", x)
}

/// `rust_decimal::Decimal::checked_add`: the result is named, not restated,
/// since the crate rounds a sum that needs more than 96 bits.
#[verifier::external_body]
fn sum_of(a: Decimal, b: Decimal) -> (r: Option<Decimal>)
    requires
        a.in_range(),
        b.in_range(),
    ensures
        r == a.add_spec(b),
        decimal_sum(a.mantissa() as int, a.scale() as nat, b.mantissa() as int, b.scale() as nat)
            is Some <==> r is Some,
{
    let x = rust_decimal::Decimal::from_i128_with_scale(a.mantissa, a.scale);
    let y = rust_decimal::Decimal::from_i128_with_scale(b.mantissa, b.scale);
    match x.checked_add(y) {
        Some(z) => Some(Decimal { mantissa: z.mantissa(), scale: z.scale() }),
        None => None,
    }
}

/// `rust_decimal::Decimal::checked_sub`: the result is named, as for the sum.
#[verifier::external_body]
fn difference_of(a: Decimal, b: Decimal) -> (r: Option<Decimal>)
    requires
        a.in_range(),
        b.in_range(),
    ensures
        r == a.sub_spec(b),
        decimal_difference(
            a.mantissa() as int,
            a.scale() as nat,
            b.mantissa() as int,
            b.scale() as nat,
        ) is Some <==> r is Some,
{
    let x = rust_decimal::Decimal::from_i128_with_scale(a.mantissa, a.scale);
    let y = rust_decimal::Decimal::from_i128_with_scale(b.mantissa, b.scale);
    match x.checked_sub(y) {
        Some(z) => Some(Decimal { mantissa: z.mantissa(), scale: z.scale() }),
        None => None,
    }
}

/// `rust_decimal::Decimal::checked_mul`: the result is named, since the crate
/// rounds a product with more than 28 digits after the point.
#[verifier::external_body]
fn product_of(a: Decimal, b: Decimal) -> (r: Option<Decimal>)
    requires
        a.in_range(),
        b.in_range(),
    ensures
        r == a.mul_spec(b),
        decimal_product(
            a.mantissa() as int,
            a.scale() as nat,
            b.mantissa() as int,
            b.scale() as nat,
        ) is Some <==> r is Some,
{
    let x = rust_decimal::Decimal::from_i128_with_scale(a.mantissa, a.scale);
    let y = rust_decimal::Decimal::from_i128_with_scale(b.mantissa, b.scale);
    match x.checked_mul(y) {
        Some(z) => Some(Decimal { mantissa: z.mantissa(), scale: z.scale() }),
        None => None,
    }
}

} // verus!
