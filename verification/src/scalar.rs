//! Binary64 numbers by their bit patterns: order, sign and selection.

use vstd::arithmetic::power2::{lemma_pow2_pos, lemma_pow2_strictly_increases, lemma_pow2_unfold, pow2};
use vstd::prelude::*;

verus! {

/// The sign bit of a binary64 pattern.
pub const SIGN_BIT: u64 = 0x8000_0000_0000_0000;

/// The magnitude bits of an infinity; every larger magnitude is a NaN.
pub const INFINITY_BITS: u64 = 0x7ff0_0000_0000_0000;

/// Two to the power 52: the weight of the lowest exponent bit, and of the
/// leading bit of a normal number's significand.
pub const HIDDEN_BIT: u64 = 0x10_0000_0000_0000;

/// The pattern of one.
pub const ONE_BITS: u64 = 0x3ff0_0000_0000_0000;

/// The pattern of the comparison tolerance, the double nearest to 10^-5.
pub const EPSILON_BITS: u64 = 0x3ee4_f8b5_88e3_68f1;

/// A binary64 number, held by its bit pattern.
///
/// `==` on scalars compares patterns; the numeric comparisons are the
/// methods `lt`, `le`, `gt`, `ge` and `same_value`.
#[derive(Clone, Copy, Debug, PartialEq, Eq, Structural)]
pub struct Scalar {
    pub bits: u64,
}

impl Scalar {
    /// The pattern without its sign bit.
    pub open spec fn magnitude(self) -> u64 {
        if self.bits >= SIGN_BIT {
            (self.bits - SIGN_BIT) as u64
        } else {
            self.bits
        }
    }

    /// Whether the sign bit is set.
    pub open spec fn sign_negative(self) -> bool {
        self.bits >= SIGN_BIT
    }

    /// Whether the pattern is a NaN.
    pub open spec fn nan(self) -> bool {
        self.magnitude() > INFINITY_BITS
    }

    /// Neither an infinity nor a NaN.
    pub open spec fn finite(self) -> bool {
        self.magnitude() < INFINITY_BITS
    }

    /// The exponent field: zero for zeros and subnormal numbers.
    pub open spec fn exponent_field(self) -> nat {
        (self.magnitude() / HIDDEN_BIT) as nat
    }

    /// The fraction field.
    pub open spec fn fraction_field(self) -> nat {
        (self.magnitude() % HIDDEN_BIT) as nat
    }

    /// The absolute value of a finite number, in units of two to the power
    /// -1074, the least positive double.
    pub open spec fn scaled_magnitude(self) -> nat {
        if self.exponent_field() == 0 {
            self.fraction_field()
        } else {
            ((HIDDEN_BIT + self.fraction_field()) * pow2((self.exponent_field() - 1) as nat)) as nat
        }
    }

    /// The value of a finite number, in the same units.
    pub open spec fn scaled_value(self) -> int {
        if self.sign_negative() {
            -(self.scaled_magnitude() as int)
        } else {
            self.scaled_magnitude() as int
        }
    }

    /// The place of a number on the line: for patterns that are no NaN,
    /// `a.rank() < b.rank()` exactly when `a` is numerically less than `b`
    /// (`lemma_rank_orders_values`). Both zeros have rank zero.
    pub open spec fn rank(self) -> int {
        if self.sign_negative() {
            -(self.magnitude() as int)
        } else {
            self.magnitude() as int
        }
    }

    /// Numerically less: false when either side is a NaN.
    pub open spec fn precedes(self, other: Scalar) -> bool {
        !self.nan() && !other.nan() && self.rank() < other.rank()
    }

    /// Numerically equal: false when either side is a NaN.
    pub open spec fn equals(self, other: Scalar) -> bool {
        !self.nan() && !other.nan() && self.rank() == other.rank()
    }

    /// Numerically less or equal: false when either side is a NaN.
    pub open spec fn at_most(self, other: Scalar) -> bool {
        !self.nan() && !other.nan() && self.rank() <= other.rank()
    }

    /// The pattern with its sign bit flipped.
    pub open spec fn negated(self) -> Scalar {
        if self.bits >= SIGN_BIT {
            Scalar { bits: (self.bits - SIGN_BIT) as u64 }
        } else {
            Scalar { bits: (self.bits + SIGN_BIT) as u64 }
        }
    }

    /// One with the sign of `self`: minus one where the sign bit is set,
    /// plus one where it is not. So it is plus one for positive zero and
    /// minus one for negative zero, and a NaN goes by its sign bit too.
    pub open spec fn signed_one(self) -> Scalar {
        if self.bits >= SIGN_BIT {
            Scalar { bits: (SIGN_BIT + ONE_BITS) as u64 }
        } else {
            Scalar { bits: ONE_BITS }
        }
    }

    /// The pattern with its sign bit cleared.
    pub open spec fn absolute(self) -> Scalar {
        Scalar { bits: self.magnitude() }
    }

    /// The greater of two numbers; a NaN loses to anything, and `self` wins
    /// a tie.
    pub open spec fn greater_of(self, other: Scalar) -> Scalar {
        if self.nan() {
            other
        } else if other.nan() {
            self
        } else if self.rank() < other.rank() {
            other
        } else {
            self
        }
    }

    /// The lesser of two numbers; a NaN loses to anything, and `self` wins
    /// a tie.
    pub open spec fn lesser_of(self, other: Scalar) -> Scalar {
        if self.nan() {
            other
        } else if other.nan() {
            self
        } else if other.rank() < self.rank() {
            other
        } else {
            self
        }
    }

    /// The number with the given pattern.
    pub fn from_bits(bits: u64) -> (r: Scalar)
        ensures
            r.bits == bits,
    {
        Scalar { bits }
    }

    /// The pattern of the number.
    pub fn to_bits(self) -> (bits: u64)
        ensures
            bits == self.bits,
    {
        self.bits
    }

    /// Positive zero.
    pub fn zero() -> (r: Scalar)
        ensures
            r.bits == 0,
    {
        Scalar { bits: 0 }
    }

    /// One.
    pub fn one() -> (r: Scalar)
        ensures
            r.bits == ONE_BITS,
    {
        Scalar { bits: ONE_BITS }
    }

    /// The comparison tolerance.
    pub fn epsilon() -> (r: Scalar)
        ensures
            r.bits == EPSILON_BITS,
    {
        Scalar { bits: EPSILON_BITS }
    }

    fn magnitude_bits(self) -> (m: u64)
        ensures
            m == self.magnitude(),
    {
        if self.bits >= SIGN_BIT {
            self.bits - SIGN_BIT
        } else {
            self.bits
        }
    }

    /// Whether this is a NaN.
    pub fn is_nan(self) -> (b: bool)
        ensures
            b == self.nan(),
    {
        self.magnitude_bits() > INFINITY_BITS
    }

    /// Whether the sign bit is set, as it is in negative zero too.
    pub fn is_sign_negative(self) -> (b: bool)
        ensures
            b == self.sign_negative(),
    {
        self.bits >= SIGN_BIT
    }

    /// Whether `self` is below `other` on the line, NaN or not.
    fn rank_below(self, other: Scalar) -> (b: bool)
        ensures
            b == (self.rank() < other.rank()),
    {
        let a: u64 = self.magnitude_bits();
        let c: u64 = other.magnitude_bits();
        if self.bits >= SIGN_BIT {
            if other.bits >= SIGN_BIT {
                c < a
            } else {
                a > 0 || c > 0
            }
        } else {
            if other.bits >= SIGN_BIT {
                false
            } else {
                a < c
            }
        }
    }

    /// `self < other`, as the machine compares doubles.
    pub fn lt(self, other: Scalar) -> (b: bool)
        ensures
            b == self.precedes(other),
    {
        !self.is_nan() && !other.is_nan() && self.rank_below(other)
    }

    /// `self > other`, as the machine compares doubles.
    pub fn gt(self, other: Scalar) -> (b: bool)
        ensures
            b == other.precedes(self),
    {
        other.lt(self)
    }

    /// `self <= other`, as the machine compares doubles.
    pub fn le(self, other: Scalar) -> (b: bool)
        ensures
            b == self.at_most(other),
    {
        !self.is_nan() && !other.is_nan() && !other.rank_below(self)
    }

    /// `self >= other`, as the machine compares doubles.
    pub fn ge(self, other: Scalar) -> (b: bool)
        ensures
            b == other.at_most(self),
    {
        other.le(self)
    }

    /// `self == other`, as the machine compares doubles: the two zeros are
    /// equal, and a NaN equals nothing.
    pub fn same_value(self, other: Scalar) -> (b: bool)
        ensures
            b == self.equals(other),
    {
        !self.is_nan() && !other.is_nan() && !self.rank_below(other) && !other.rank_below(self)
    }

    /// The opposite number; exact, as only the sign bit changes.
    pub fn neg(self) -> (r: Scalar)
        ensures
            r == self.negated(),
    {
        if self.bits >= SIGN_BIT {
            Scalar { bits: self.bits - SIGN_BIT }
        } else {
            Scalar { bits: self.bits + SIGN_BIT }
        }
    }

    /// Plus or minus one, by the sign bit of `self`.
    pub fn sign(self) -> (r: Scalar)
        ensures
            r == self.signed_one(),
    {
        if self.bits >= SIGN_BIT {
            Scalar { bits: SIGN_BIT + ONE_BITS }
        } else {
            Scalar { bits: ONE_BITS }
        }
    }

    /// The absolute value; exact, as only the sign bit is cleared.
    pub fn abs(self) -> (r: Scalar)
        ensures
            r == self.absolute(),
    {
        Scalar { bits: self.magnitude_bits() }
    }

    /// The greater of the two, a NaN only where both are.
    pub fn max(self, other: Scalar) -> (r: Scalar)
        ensures
            r == self.greater_of(other),
    {
        if self.is_nan() {
            other
        } else if other.is_nan() {
            self
        } else if self.rank_below(other) {
            other
        } else {
            self
        }
    }

    /// The lesser of the two, a NaN only where both are.
    pub fn min(self, other: Scalar) -> (r: Scalar)
        ensures
            r == self.lesser_of(other),
    {
        if self.is_nan() {
            other
        } else if other.is_nan() {
            self
        } else if other.rank_below(self) {
            other
        } else {
            self
        }
    }
}

/// Among finite patterns without the sign, the greater pattern is the
/// greater number.
proof fn lemma_magnitude_orders_values(a: Scalar, b: Scalar)
    requires
        a.finite(),
        b.finite(),
        a.magnitude() < b.magnitude(),
    ensures
        a.scaled_magnitude() < b.scaled_magnitude(),
{
    let ea = a.exponent_field();
    let eb = b.exponent_field();
    let fa = a.fraction_field();
    let fb = b.fraction_field();
    assert(fa < HIDDEN_BIT && fb < HIDDEN_BIT);
    assert(ea <= eb);
    if ea == eb {
        assert(fa < fb);
        if ea > 0 {
            let p = pow2((ea - 1) as nat);
            lemma_pow2_pos((ea - 1) as nat);
            assert((HIDDEN_BIT + fa) * p < (HIDDEN_BIT + fb) * p) by (nonlinear_arith)
                requires
                    fa < fb,
                    p > 0,
            ;
        }
    } else {
        let q = pow2((eb - 1) as nat);
        lemma_pow2_pos((eb - 1) as nat);
        assert(HIDDEN_BIT * 1 <= (HIDDEN_BIT + fb) * q) by (nonlinear_arith)
            requires
                q >= 1,
                fb >= 0,
        ;
        if ea > 0 {
            let p = pow2((ea - 1) as nat);
            lemma_pow2_pos((ea - 1) as nat);
            lemma_pow2_unfold(ea);
            if ea < eb - 1 {
                lemma_pow2_strictly_increases(ea, (eb - 1) as nat);
            }
            assert(2 * p <= q);
            assert((HIDDEN_BIT + fa) * p < (HIDDEN_BIT + fb) * q) by (nonlinear_arith)
                requires
                    fa < HIDDEN_BIT,
                    fb >= 0,
                    p > 0,
                    2 * p <= q,
            ;
        }
    }
}

/// The rank orders finite numbers as their values do: a lesser rank is a
/// lesser value, and an equal rank an equal value. The two zeros, which
/// differ only in the sign bit, have the same rank and the same value.
pub proof fn lemma_rank_orders_values(a: Scalar, b: Scalar)
    requires
        a.finite(),
        b.finite(),
    ensures
        a.rank() < b.rank() <==> a.scaled_value() < b.scaled_value(),
        a.rank() == b.rank() <==> a.scaled_value() == b.scaled_value(),
{
    let zero = Scalar { bits: 0 };
    assert(zero.scaled_magnitude() == 0);
    if a.magnitude() < b.magnitude() {
        lemma_magnitude_orders_values(a, b);
    } else if b.magnitude() < a.magnitude() {
        lemma_magnitude_orders_values(b, a);
    } else {
        assert(a.scaled_magnitude() == b.scaled_magnitude());
    }
    if a.magnitude() > 0 {
        lemma_magnitude_orders_values(zero, Scalar { bits: a.magnitude() });
        assert((Scalar { bits: a.magnitude() }).scaled_magnitude() == a.scaled_magnitude());
    }
    if b.magnitude() > 0 {
        lemma_magnitude_orders_values(zero, Scalar { bits: b.magnitude() });
        assert((Scalar { bits: b.magnitude() }).scaled_magnitude() == b.scaled_magnitude());
    }
}

/// Every finite number lies between the two infinities, and no NaN has a
/// place among the numbers: it is neither less than, equal to nor greater
/// than anything.
pub proof fn lemma_infinities_and_nans(a: Scalar, b: Scalar)
    ensures
        a.finite() ==> (Scalar { bits: (SIGN_BIT + INFINITY_BITS) as u64 }).precedes(a)
            && a.precedes(Scalar { bits: INFINITY_BITS }),
        a.nan() ==> !a.precedes(b) && !b.precedes(a) && !a.equals(b) && !a.at_most(b)
            && !b.at_most(a),
        !a.nan() && !b.nan() ==> (a.precedes(b) || a.equals(b) || b.precedes(a)),
{
}

} // verus!
