//! Real numbers as IEEE 754 binary64 bit patterns.

use vstd::arithmetic::power2::{
    lemma2_to64_rest, lemma_pow2_adds, lemma_pow2_pos, lemma_pow2_strictly_increases,
    lemma_pow2_unfold, pow2,
};
use vstd::prelude::*;

verus! {

/// The sign bit of a binary64 pattern.
pub const SIGN_BIT: u64 = 0x8000_0000_0000_0000;

/// The pattern of positive infinity: every pattern whose magnitude is larger is a NaN.
pub const INFINITY_BITS: u64 = 0x7FF0_0000_0000_0000;

/// The pattern of `1.0`.
pub const ONE_BITS: u64 = 0x3FF0_0000_0000_0000;

/// Two to the 52nd: the weight of the lowest exponent bit in a pattern, and
/// of the hidden leading bit in the significand of a normal number.
pub const HIDDEN_BIT: u64 = 0x0010_0000_0000_0000;

/// A real number in IEEE 754 binary64 format, held by its bit pattern.
///
/// The magnitude bits of a binary64 value grow with its absolute value, from
/// zero through the subnormal and normal numbers up to infinity, so the order
/// of two numbers can be read off their patterns without decoding them:
/// [`Scalar::key`] places every pattern that is not a NaN on the integer line,
/// and comparing keys is comparing values.
#[derive(Clone, Copy, Debug)]
pub struct Scalar {
    pub bits: u64,
}

impl Scalar {
    /// The pattern with its sign bit cleared.
    pub open spec fn magnitude(self) -> int {
        if self.bits >= SIGN_BIT {
            self.bits - SIGN_BIT
        } else {
            self.bits as int
        }
    }

    /// Whether the sign bit is set. True of `-0.0` too.
    pub open spec fn sign_negative(self) -> bool {
        self.bits >= SIGN_BIT
    }

    /// Whether the pattern encodes no number.
    pub open spec fn is_nan_spec(self) -> bool {
        self.magnitude() > INFINITY_BITS
    }

    /// Whether the pattern encodes a number that is not infinite.
    pub open spec fn is_finite(self) -> bool {
        self.magnitude() < INFINITY_BITS
    }

    /// The exponent field: the eleven bits below the sign bit.
    pub open spec fn exponent(self) -> int {
        self.magnitude() / (HIDDEN_BIT as int)
    }

    /// The fraction field: the lowest 52 bits.
    pub open spec fn fraction(self) -> int {
        self.magnitude() % (HIDDEN_BIT as int)
    }

    /// The value of a finite number, counted in units of the smallest
    /// positive number, two to the power -1074.
    ///
    /// A subnormal number (exponent field 0) is its fraction in these units.
    /// A normal number has the significand `2^52 + fraction` and is worth
    /// that many units times two to the power `exponent - 1`.
    pub open spec fn units(self) -> int {
        let size = if self.exponent() == 0 {
            self.fraction()
        } else {
            (HIDDEN_BIT + self.fraction()) * pow2((self.exponent() - 1) as nat)
        };
        if self.sign_negative() {
            -size
        } else {
            size
        }
    }

    /// The place of the value on the number line: for patterns that are not
    /// NaN, `a.key() < b.key()` exactly when the value of `a` is less than
    /// the value of `b`. Both zeros have key 0.
    pub open spec fn key(self) -> int {
        if self.sign_negative() {
            -self.magnitude()
        } else {
            self.magnitude()
        }
    }

    /// IEEE 754 `<`: false whenever either side is a NaN.
    pub open spec fn lt_spec(self, other: Scalar) -> bool {
        !self.is_nan_spec() && !other.is_nan_spec() && self.key() < other.key()
    }

    /// IEEE 754 `>`.
    pub open spec fn gt_spec(self, other: Scalar) -> bool {
        other.lt_spec(self)
    }

    /// IEEE 754 `==`: a NaN equals nothing, and `0.0 == -0.0`.
    pub open spec fn same_value(self, other: Scalar) -> bool {
        !self.is_nan_spec() && !other.is_nan_spec() && self.key() == other.key()
    }

    /// The pattern with its sign bit flipped.
    pub open spec fn neg_spec(self) -> Scalar {
        if self.bits >= SIGN_BIT {
            Scalar { bits: (self.bits - SIGN_BIT) as u64 }
        } else {
            Scalar { bits: (self.bits + SIGN_BIT) as u64 }
        }
    }

    /// Whether the value lies strictly inside the open interval `(lo, hi)`.
    pub open spec fn strictly_between(self, lo: Scalar, hi: Scalar) -> bool {
        lo.lt_spec(self) && self.lt_spec(hi)
    }

    /// Among finite numbers of one sign, a larger pattern is a larger size.
    proof fn size_grows_with_magnitude(a: Scalar, b: Scalar)
        requires
            a.is_finite(),
            b.is_finite(),
            !a.sign_negative(),
            !b.sign_negative(),
            a.magnitude() < b.magnitude(),
        ensures
            a.units() < b.units(),
    {
        let h = HIDDEN_BIT as int;
        let (ea, fa) = (a.exponent(), a.fraction());
        let (eb, fb) = (b.exponent(), b.fraction());
        assert(0 <= fa < h && 0 <= fb < h);
        assert(0 <= ea <= eb < 2047);
        if eb > 0 {
            let pb = pow2((eb - 1) as nat) as int;
            lemma_pow2_pos((eb - 1) as nat);
            if ea == eb {
                assert((h + fa) * pb < (h + fb) * pb) by (nonlinear_arith)
                    requires
                        fa < fb,
                        pb > 0,
                ;
            } else if ea == 0 {
                assert(h <= (h + fb) * pb) by (nonlinear_arith)
                    requires
                        fb >= 0,
                        h > 0,
                        pb >= 1,
                ;
            } else {
                let pa = pow2((ea - 1) as nat) as int;
                lemma_pow2_pos((ea - 1) as nat);
                lemma_pow2_unfold(ea as nat);
                if ea < eb - 1 {
                    lemma_pow2_strictly_increases(ea as nat, (eb - 1) as nat);
                }
                assert(2 * pa <= pb);
                assert((h + fa) * pa < (h + fb) * pb) by (nonlinear_arith)
                    requires
                        0 <= fa < h,
                        0 <= fb,
                        pa > 0,
                        2 * pa <= pb,
                ;
            }
        }
    }

    /// The order of the keys is the order of the values: of two finite
    /// numbers, one has the smaller key exactly when it is worth fewer units,
    /// and both have the same key exactly when they are worth the same.
    pub proof fn key_orders_as_units(a: Scalar, b: Scalar)
        requires
            a.is_finite(),
            b.is_finite(),
        ensures
            a.key() < b.key() <==> a.units() < b.units(),
            a.key() == b.key() <==> a.units() == b.units(),
    {
        let pa = Scalar { bits: a.magnitude() as u64 };
        let pb = Scalar { bits: b.magnitude() as u64 };
        assert(pa.magnitude() == a.magnitude() && pb.magnitude() == b.magnitude());
        assert(pa.units() == if a.sign_negative() { -a.units() } else { a.units() });
        assert(pb.units() == if b.sign_negative() { -b.units() } else { b.units() });
        let zero = Scalar { bits: 0 };
        assert(zero.units() == 0) by {
            assert(zero.exponent() == 0 && zero.fraction() == 0);
        }
        if pa.magnitude() > 0 {
            Self::size_grows_with_magnitude(zero, pa);
        }
        if pb.magnitude() > 0 {
            Self::size_grows_with_magnitude(zero, pb);
        }
        if pa.magnitude() < pb.magnitude() {
            Self::size_grows_with_magnitude(pa, pb);
        }
        if pb.magnitude() < pa.magnitude() {
            Self::size_grows_with_magnitude(pb, pa);
        }
    }

    pub fn from_bits(bits: u64) -> (r: Scalar)
        ensures
            r.bits == bits,
    {
        Scalar { bits }
    }

    pub fn to_bits(self) -> (r: u64)
        ensures
            r == self.bits,
    {
        self.bits
    }

    /// `0.0`.
    pub fn zero() -> (r: Scalar)
        ensures
            r.bits == 0,
            r.is_finite(),
            r.key() == 0,
            r.units() == 0,
    {
        let r = Scalar { bits: 0 };
        assert(r.exponent() == 0 && r.fraction() == 0);
        r
    }

    /// `1.0`: two to the power 1074 units.
    pub fn one() -> (r: Scalar)
        ensures
            r.bits == ONE_BITS,
            r.is_finite(),
            r.units() == pow2(1074),
    {
        let r = Scalar { bits: ONE_BITS };
        proof {
            assert(r.exponent() == 1023 && r.fraction() == 0);
            assert(HIDDEN_BIT == pow2(52)) by {
                lemma2_to64_rest();
            }
            lemma_pow2_adds(52, 1022);
        }
        r
    }

    /// Positive infinity: no number lies beyond it.
    pub fn infinity() -> (r: Scalar)
        ensures
            r.bits == INFINITY_BITS,
            !r.is_nan_spec(),
            forall|x: Scalar| !x.is_nan_spec() ==> #[trigger] x.key() <= r.key(),
            forall|x: Scalar| x.is_finite() ==> #[trigger] x.lt_spec(r),
    {
        Scalar { bits: INFINITY_BITS }
    }

    fn magnitude_bits(self) -> (r: u64)
        ensures
            r == self.magnitude(),
    {
        if self.bits >= SIGN_BIT {
            self.bits - SIGN_BIT
        } else {
            self.bits
        }
    }

    pub fn is_nan(self) -> (r: bool)
        ensures
            r == self.is_nan_spec(),
    {
        self.magnitude_bits() > INFINITY_BITS
    }

    /// `self < other`, as IEEE 754 orders the two values.
    pub fn lt(self, other: Scalar) -> (r: bool)
        ensures
            r == self.lt_spec(other),
    {
        if self.is_nan() || other.is_nan() {
            return false;
        }
        let a: u64 = self.magnitude_bits();
        let b: u64 = other.magnitude_bits();
        if self.bits >= SIGN_BIT {
            if other.bits >= SIGN_BIT {
                b < a
            } else {
                a > 0 || b > 0
            }
        } else {
            if other.bits >= SIGN_BIT {
                false
            } else {
                a < b
            }
        }
    }

    /// `self > other`, as IEEE 754 orders the two values.
    pub fn gt(self, other: Scalar) -> (r: bool)
        ensures
            r == self.gt_spec(other),
    {
        other.lt(self)
    }

    /// The negated value: only the sign bit changes, for a NaN too.
    pub fn negate(self) -> (r: Scalar)
        ensures
            r == self.neg_spec(),
            r.is_nan_spec() == self.is_nan_spec(),
            r.key() == -self.key(),
            r.units() == -self.units(),
    {
        if self.bits >= SIGN_BIT {
            Scalar { bits: self.bits - SIGN_BIT }
        } else {
            Scalar { bits: self.bits + SIGN_BIT }
        }
    }

    /// Whether `lo < self < hi`.
    pub fn is_strictly_between(self, lo: Scalar, hi: Scalar) -> (r: bool)
        ensures
            r == self.strictly_between(lo, hi),
    {
        lo.lt(self) && self.lt(hi)
    }
}

impl PartialEq for Scalar {
    /// IEEE 754 `==`.
    fn eq(&self, other: &Scalar) -> (r: bool) {
        if self.is_nan() || other.is_nan() {
            return false;
        }
        let a: u64 = self.magnitude_bits();
        let b: u64 = other.magnitude_bits();
        if a == 0 {
            b == 0
        } else {
            self.bits == other.bits
        }
    }
}

impl vstd::std_specs::cmp::PartialEqSpecImpl for Scalar {
    open spec fn obeys_eq_spec() -> bool {
        true
    }

    open spec fn eq_spec(&self, other: &Scalar) -> bool {
        self.same_value(*other)
    }
}

impl std::ops::Neg for Scalar {
    type Output = Scalar;

    fn neg(self) -> (r: Scalar) {
        self.negate()
    }
}

impl vstd::std_specs::ops::NegSpecImpl for Scalar {
    open spec fn obeys_neg_spec() -> bool {
        true
    }

    open spec fn neg_req(self) -> bool {
        true
    }

    open spec fn neg_spec(self) -> Scalar {
        Scalar::neg_spec(self)
    }
}

} // verus!
