//! Weight values.
//!
//! A measurement is a binary64 number, kept here by its IEEE 754 encoding:
//! one sign bit, eleven exponent bits and fifty-two fraction bits. Every
//! comparison the library makes is decided on that encoding with integer
//! arithmetic. For numbers of one sign the encodings are ordered as the
//! numbers are, so a number that is not a NaN has a *rank*: its magnitude
//! bits, negated when the sign bit is set. Smaller numbers have smaller
//! ranks, and the two zeros share rank 0. That the order of ranks is the
//! order of the numbers is proved here: see `lemma_order_of_numbers`.

use vstd::arithmetic::mul::{
    lemma_mul_inequality, lemma_mul_strict_inequality, lemma_mul_strictly_positive,
};
use vstd::arithmetic::power2::{
    lemma2_to64, lemma2_to64_rest, lemma_pow2_adds, lemma_pow2_pos, lemma_pow2_strictly_increases,
    pow2,
};
use vstd::prelude::*;

verus! {

/// Two to the power of 52: the number of fractions that one exponent has.
pub const FRACTION_RANGE: u64 = 0x10_0000_0000_0000;

/// The encoding of negative zero: the sign bit alone.
pub const SIGN_BIT: u64 = 0x8000_0000_0000_0000;

/// The encoding of positive infinity. A magnitude above it is a NaN.
pub const INFINITY_BITS: u64 = 0x7FF0_0000_0000_0000;

/// The encoding of negative infinity.
pub const NEG_INFINITY_BITS: u64 = 0xFFF0_0000_0000_0000;

/// The encoding of 10000, the largest weight that may be recorded.
pub const MAX_WEIGHT_BITS: u64 = 0x40C3_8800_0000_0000;

/// A weight, held as the encoding of a binary64 number.
///
/// Equality is equality of encodings: a NaN equals itself and the two zeros
/// differ.
#[derive(Clone, Copy, Debug, PartialEq, Eq, Structural, Hash)]
pub struct WeightValue {
    pub bits: u64,
}

impl WeightValue {
    /// The encoding without its sign bit.
    pub open spec fn magnitude(self) -> int {
        if self.bits >= SIGN_BIT {
            self.bits - SIGN_BIT
        } else {
            self.bits as int
        }
    }

    /// Whether the sign bit is set.
    pub open spec fn sign_negative(self) -> bool {
        self.bits >= SIGN_BIT
    }

    /// Whether the value is not a number.
    pub open spec fn nan(self) -> bool {
        self.magnitude() > INFINITY_BITS
    }

    /// The place of a number in the order of all numbers. Meaningful when the
    /// value is not a NaN.
    pub open spec fn rank(self) -> int {
        if self.sign_negative() {
            -self.magnitude()
        } else {
            self.magnitude()
        }
    }

    /// The value is a number greater than zero.
    pub open spec fn positive(self) -> bool {
        !self.nan() && self.rank() > 0
    }

    /// The value is a number no greater than 10000.
    pub open spec fn within_limit(self) -> bool {
        !self.nan() && self.rank() <= MAX_WEIGHT_BITS
    }

    /// `self` is a number, `other` is a number, and `self` is the smaller.
    pub open spec fn less_than(self, other: WeightValue) -> bool {
        !self.nan() && !other.nan() && self.rank() < other.rank()
    }

    /// The value is a number and not an infinity.
    pub open spec fn finite(self) -> bool {
        self.magnitude() < INFINITY_BITS
    }

    /// The exponent field of the encoding.
    pub open spec fn exponent_field(self) -> nat {
        (self.magnitude() / (FRACTION_RANGE as int)) as nat
    }

    /// The fraction field of the encoding.
    pub open spec fn fraction_field(self) -> nat {
        (self.magnitude() % (FRACTION_RANGE as int)) as nat
    }

    /// The size of a finite number, counted in units of the smallest
    /// positive number, which is two to the power of -1074. With exponent
    /// field 0 it is the fraction; with exponent field `e` above 0 the
    /// fraction gains a leading one and is doubled `e - 1` times.
    pub open spec fn units(self) -> nat {
        if self.exponent_field() == 0 {
            self.fraction_field()
        } else {
            ((FRACTION_RANGE + self.fraction_field()) * pow2((self.exponent_field() - 1) as nat)) as nat
        }
    }

    /// The finite number itself, counted in units of the smallest positive
    /// number.
    pub open spec fn signed_units(self) -> int {
        if self.sign_negative() {
            -(self.units() as int)
        } else {
            self.units() as int
        }
    }

    /// The value with the given encoding.
    pub fn from_bits(bits: u64) -> (r: WeightValue)
        ensures
            r.bits == bits,
    {
        WeightValue { bits }
    }

    /// The encoding.
    pub fn to_bits(self) -> (r: u64)
        ensures
            r == self.bits,
    {
        self.bits
    }

    /// Positive zero.
    pub fn zero() -> (r: WeightValue)
        ensures
            r.bits == 0,
    {
        WeightValue { bits: 0 }
    }

    /// Positive infinity.
    pub fn infinity() -> (r: WeightValue)
        ensures
            r.bits == INFINITY_BITS,
    {
        WeightValue { bits: INFINITY_BITS }
    }

    /// Negative infinity.
    pub fn neg_infinity() -> (r: WeightValue)
        ensures
            r.bits == NEG_INFINITY_BITS,
    {
        WeightValue { bits: NEG_INFINITY_BITS }
    }

    fn magnitude_bits(self) -> (r: u64)
        ensures
            r == self.magnitude(),
            r < SIGN_BIT,
    {
        if self.bits >= SIGN_BIT {
            self.bits - SIGN_BIT
        } else {
            self.bits
        }
    }

    /// Whether the value is not a number.
    pub fn is_nan(self) -> (r: bool)
        ensures
            r == self.nan(),
    {
        self.magnitude_bits() > INFINITY_BITS
    }

    /// Whether the value is a number greater than zero.
    pub fn is_positive(self) -> (r: bool)
        ensures
            r == self.positive(),
            r == (0 < self.bits <= INFINITY_BITS),
    {
        0 < self.bits && self.bits <= INFINITY_BITS
    }

    /// Whether the value is a number no greater than 10000.
    pub fn is_within_limit(self) -> (r: bool)
        ensures
            r == self.within_limit(),
    {
        if self.is_nan() {
            false
        } else {
            self.bits >= SIGN_BIT || self.bits <= MAX_WEIGHT_BITS
        }
    }

    /// Whether both values are numbers and `self` is the smaller one.
    pub fn is_less_than(self, other: WeightValue) -> (r: bool)
        ensures
            r == self.less_than(other),
    {
        if self.is_nan() || other.is_nan() {
            return false;
        }
        let a = self.magnitude_bits();
        let b = other.magnitude_bits();
        if self.bits >= SIGN_BIT {
            if other.bits >= SIGN_BIT {
                a > b
            } else {
                a > 0 || b > 0
            }
        } else {
            if other.bits >= SIGN_BIT {
                false
            } else {
                a < b
            }
        }
    }
}

/// The number 10000, counted in units of the smallest positive number.
pub open spec fn limit_units() -> nat {
    10000 * pow2(1074)
}

/// Between finite numbers, a greater magnitude in the encoding is a greater
/// size.
proof fn lemma_units_monotone(a: WeightValue, b: WeightValue)
    requires
        a.finite(),
        b.finite(),
        a.magnitude() < b.magnitude(),
    ensures
        a.units() < b.units(),
{
    let m = FRACTION_RANGE as int;
    let ea = a.exponent_field();
    let eb = b.exponent_field();
    let fa = a.fraction_field() as int;
    let fb = b.fraction_field() as int;
    if ea == eb {
        if ea > 0 {
            let p = pow2((ea - 1) as nat) as int;
            lemma_pow2_pos((ea - 1) as nat);
            lemma_mul_strict_inequality(m + fa, m + fb, p);
        }
    } else {
        let high = pow2((eb - 1) as nat) as int;
        lemma_pow2_pos((eb - 1) as nat);
        lemma_mul_inequality(m, m + fb, high);
        if ea == 0 {
            lemma_mul_inequality(1, high, m);
        } else {
            let low = pow2((ea - 1) as nat) as int;
            lemma_pow2_pos((ea - 1) as nat);
            lemma_mul_strict_inequality(m + fa, 2 * m, low);
            lemma_pow2_adds(1, (ea - 1) as nat);
            lemma2_to64();
            if ea < eb - 1 {
                lemma_pow2_strictly_increases(ea, (eb - 1) as nat);
            }
            lemma_mul_inequality(pow2(ea) as int, high, m);
            assert((pow2(ea) as int) * m == m * (2 * low)) by (nonlinear_arith)
                requires
                    pow2(ea) == 2 * low,
            ;
        }
    }
}

/// A finite number has size zero exactly when it is a zero.
proof fn lemma_units_zero(a: WeightValue)
    requires
        a.finite(),
    ensures
        a.units() == 0 <==> a.magnitude() == 0,
{
    if a.exponent_field() > 0 {
        lemma_pow2_pos((a.exponent_field() - 1) as nat);
        lemma_mul_strictly_positive(
            (FRACTION_RANGE + a.fraction_field()) as int,
            pow2((a.exponent_field() - 1) as nat) as int,
        );
    }
}

/// The order that the library decides on encodings is the order of the
/// numbers: of two finite values the one of lower rank is the smaller
/// number.
pub proof fn lemma_order_of_numbers(a: WeightValue, b: WeightValue)
    requires
        a.finite(),
        b.finite(),
    ensures
        a.less_than(b) <==> a.signed_units() < b.signed_units(),
{
    lemma_units_zero(a);
    lemma_units_zero(b);
    if a.magnitude() < b.magnitude() {
        lemma_units_monotone(a, b);
    } else if b.magnitude() < a.magnitude() {
        lemma_units_monotone(b, a);
    }
}

/// The encoding of the limit is the encoding of the number 10000.
pub proof fn lemma_limit_is_ten_thousand()
    ensures
        (WeightValue { bits: MAX_WEIGHT_BITS }).finite(),
        (WeightValue { bits: MAX_WEIGHT_BITS }).signed_units() == limit_units(),
{
    let v = WeightValue { bits: MAX_WEIGHT_BITS };
    assert(v.fraction_field() == 0x3_8800_0000_0000);
    lemma2_to64_rest();
    lemma_pow2_adds(39, 1035);
}

/// A weight may be recorded exactly when it is a finite number greater than
/// zero and no greater than 10000.
pub proof fn lemma_recordable_numbers(v: WeightValue)
    ensures
        (v.positive() && v.within_limit()) <==> (v.finite() && 0 < v.signed_units() <= limit_units()),
{
    let zero = WeightValue { bits: 0 };
    let limit = WeightValue { bits: MAX_WEIGHT_BITS };
    lemma_limit_is_ten_thousand();
    if v.finite() {
        lemma_order_of_numbers(zero, v);
        lemma_order_of_numbers(limit, v);
    }
}

} // verus!
