//! Single-precision values as bit patterns, and their order.

use vstd::prelude::*;
use vstd::arithmetic::mul::{lemma_mul_inequality, lemma_mul_strict_inequality};
use vstd::arithmetic::power2::{
    lemma_pow2_pos,
    lemma_pow2_strictly_increases,
    lemma_pow2_unfold,
    pow2,
};

verus! {

/// The sign bit of a pattern.
pub const SIGN_BIT: u32 = 0x8000_0000;

/// The pattern of positive infinity. A larger magnitude is not a number.
pub const INFINITY_BITS: u32 = 0x7f80_0000;

/// The pattern of one.
pub const ONE_BITS: u32 = 0x3f80_0000;

/// The number of patterns that share one exponent: two to the power 23.
pub const FRACTIONS: u32 = 0x80_0000;

/// An IEEE-754 single-precision value, held as its bit pattern: one sign
/// bit, eight bits of exponent, twenty-three bits of fraction.
///
/// `==` on this type compares patterns. The numeric comparisons are
/// [`Scalar::lt`], [`Scalar::gt`] and [`Scalar::ge`].
#[derive(Clone, Copy, Debug, PartialEq, Eq, Structural)]
pub struct Scalar {
    pub bits: u32,
}

impl Scalar {
    /// Whether the sign bit is set.
    pub open spec fn sign(self) -> bool {
        self.bits >= SIGN_BIT
    }

    /// The pattern without its sign bit.
    pub open spec fn magnitude(self) -> int {
        if self.bits >= SIGN_BIT {
            self.bits - SIGN_BIT
        } else {
            self.bits as int
        }
    }

    /// The exponent bits.
    pub open spec fn exponent(self) -> int {
        self.magnitude() / (FRACTIONS as int)
    }

    /// The fraction bits.
    pub open spec fn fraction(self) -> int {
        self.magnitude() % (FRACTIONS as int)
    }

    /// Whether the pattern is not a number: all exponent bits set and a
    /// fraction that is not zero.
    #[verifier::inline]
    pub open spec fn spec_is_nan(self) -> bool {
        self.magnitude() > INFINITY_BITS
    }

    /// The place of the pattern on the number line: the magnitude, negated
    /// under a set sign bit. Both zeros have rank zero. A number is less
    /// than another exactly when its rank is, which
    /// [`lemma_rank_orders_values`] proves of the values.
    pub open spec fn rank(self) -> int {
        if self.sign() {
            -self.magnitude()
        } else {
            self.magnitude()
        }
    }

    /// The absolute value times two to the power 149, which is whole: the
    /// fraction alone where the exponent is zero, and else the fraction
    /// with a leading one before it, doubled once for each step of the
    /// exponent above one. For an infinity this is a stand-in beyond every
    /// finite value.
    pub open spec fn scaled_abs(self) -> int {
        if self.exponent() == 0 {
            self.fraction()
        } else {
            (FRACTIONS + self.fraction()) * pow2((self.exponent() - 1) as nat)
        }
    }

    /// The value times two to the power 149: the scaled absolute value,
    /// negated under a set sign bit. Both zeros have the value zero.
    pub open spec fn scaled_value(self) -> int {
        if self.sign() {
            -self.scaled_abs()
        } else {
            self.scaled_abs()
        }
    }

    /// `self < other`: both are numbers, and `self` is the lesser one.
    pub open spec fn spec_lt(self, other: Scalar) -> bool {
        !self.spec_is_nan() && !other.spec_is_nan() && self.rank() < other.rank()
    }

    /// `self > other`.
    pub open spec fn spec_gt(self, other: Scalar) -> bool {
        other.spec_lt(self)
    }

    /// `self >= other`: both are numbers, and `self` is not the lesser one.
    pub open spec fn spec_ge(self, other: Scalar) -> bool {
        !self.spec_is_nan() && !other.spec_is_nan() && self.rank() >= other.rank()
    }

    /// The value with the given pattern.
    pub fn from_bits(bits: u32) -> (s: Scalar)
        ensures
            s.bits == bits,
    {
        Scalar { bits }
    }

    /// The pattern.
    pub fn to_bits(self) -> (bits: u32)
        ensures
            bits == self.bits,
    {
        self.bits
    }

    /// Positive zero.
    pub fn zero() -> (s: Scalar)
        ensures
            s.bits == 0,
    {
        Scalar { bits: 0 }
    }

    /// One.
    pub fn one() -> (s: Scalar)
        ensures
            s.bits == ONE_BITS,
    {
        Scalar { bits: ONE_BITS }
    }

    /// Magnitude and rank as machine integers.
    fn signed_rank(self) -> (r: (i64, i64))
        ensures
            r.0 == self.magnitude(),
            r.1 == self.rank(),
    {
        if self.bits >= SIGN_BIT {
            let m: i64 = (self.bits - SIGN_BIT) as i64;
            (m, -m)
        } else {
            let m: i64 = self.bits as i64;
            (m, m)
        }
    }

    #[verifier::when_used_as_spec(spec_is_nan)]
    pub fn is_nan(self) -> (r: bool)
        ensures
            r == self.spec_is_nan(),
    {
        self.signed_rank().0 > INFINITY_BITS as i64
    }

    #[verifier::when_used_as_spec(spec_lt)]
    pub fn lt(self, other: Scalar) -> (r: bool)
        ensures
            r == self.spec_lt(other),
    {
        let a = self.signed_rank();
        let b = other.signed_rank();
        a.0 <= INFINITY_BITS as i64 && b.0 <= INFINITY_BITS as i64 && a.1 < b.1
    }

    #[verifier::when_used_as_spec(spec_gt)]
    pub fn gt(self, other: Scalar) -> (r: bool)
        ensures
            r == self.spec_gt(other),
    {
        other.lt(self)
    }

    #[verifier::when_used_as_spec(spec_ge)]
    pub fn ge(self, other: Scalar) -> (r: bool)
        ensures
            r == self.spec_ge(other),
    {
        let a = self.signed_rank();
        let b = other.signed_rank();
        a.0 <= INFINITY_BITS as i64 && b.0 <= INFINITY_BITS as i64 && a.1 >= b.1
    }

    /// The value with the sign bit flipped and the magnitude kept: the
    /// negation of a number, and again not a number where `self` is none.
    pub fn neg(self) -> (r: Scalar)
        ensures
            r.magnitude() == self.magnitude(),
            r.sign() != self.sign(),
            r.rank() == -self.rank(),
            r.scaled_value() == -self.scaled_value(),
            r.spec_is_nan() == self.spec_is_nan(),
    {
        if self.bits >= SIGN_BIT {
            Scalar { bits: self.bits - SIGN_BIT }
        } else {
            Scalar { bits: self.bits + SIGN_BIT }
        }
    }
}

/// A larger magnitude is a larger absolute value.
proof fn lemma_scaled_abs_increases(a: Scalar, b: Scalar)
    requires
        a.magnitude() < b.magnitude(),
    ensures
        0 <= a.scaled_abs() < b.scaled_abs(),
{
    let span = FRACTIONS as int;
    let (ea, fa) = (a.exponent(), a.fraction());
    let (eb, fb) = (b.exponent(), b.fraction());
    if ea == eb {
        // The same exponent: the fractions decide.
        if ea != 0 {
            let p = pow2((ea - 1) as nat) as int;
            lemma_pow2_pos((ea - 1) as nat);
            lemma_mul_strict_inequality(span + fa, span + fb, p);
        }
    } else {
        // A lesser exponent: `a` stays below the least value of the next
        // exponent, which is not above the least value of the exponent of
        // `b`.
        let pb = pow2((eb - 1) as nat) as int;
        lemma_pow2_pos((eb - 1) as nat);
        lemma_mul_inequality(span, span + fb, pb);
        if ea != 0 {
            let pa = pow2((ea - 1) as nat) as int;
            lemma_pow2_pos((ea - 1) as nat);
            lemma_pow2_unfold(ea as nat);
            if ea < eb - 1 {
                lemma_pow2_strictly_increases(ea as nat, (eb - 1) as nat);
            }
            lemma_mul_strict_inequality(span + fa, 2 * span, pa);
        }
    }
}

/// The comparisons order numbers by their values: one pattern's rank is
/// less than another's exactly when its value is, and the two ranks are
/// equal exactly when the values are.
pub proof fn lemma_rank_orders_values(a: Scalar, b: Scalar)
    ensures
        a.rank() < b.rank() <==> a.scaled_value() < b.scaled_value(),
        a.rank() == b.rank() <==> a.scaled_value() == b.scaled_value(),
        a.spec_lt(b) <==> !a.spec_is_nan() && !b.spec_is_nan() && a.scaled_value()
            < b.scaled_value(),
        a.spec_ge(b) <==> !a.spec_is_nan() && !b.spec_is_nan() && a.scaled_value()
            >= b.scaled_value(),
{
    let zero = Scalar { bits: 0 };
    if a.magnitude() > 0 {
        lemma_scaled_abs_increases(zero, a);
    }
    if a.magnitude() < b.magnitude() {
        lemma_scaled_abs_increases(a, b);
    } else if b.magnitude() < a.magnitude() {
        lemma_scaled_abs_increases(b, a);
    }
}

} // verus!
