//! Comparison of IEEE 754 binary64 values through their bit patterns.

use vstd::arithmetic::power2::{
    lemma_pow2_pos, lemma_pow2_strictly_increases, lemma_pow2_unfold, pow2,
};
use vstd::prelude::*;

verus! {

/// The sign bit of a binary64 pattern.
pub const SIGN_BIT: u64 = 0x8000_0000_0000_0000;

/// The pattern of positive infinity; patterns of larger magnitude are NaNs.
pub const INFINITY_BITS: u64 = 0x7ff0_0000_0000_0000;

/// Two to the number of stored significand bits.
pub const SIGNIFICAND_RANGE: u64 = 0x10_0000_0000_0000;

/// A binary64 value, held by its bit pattern.
///
/// `==` on this type compares patterns; the numeric comparisons are the methods.
#[derive(Clone, Copy, Debug, PartialEq, Eq, Structural)]
pub struct Real {
    pub bits: u64,
}

/// The numeric value of the non-negative finite pattern `m`, in units of the
/// smallest subnormal number.
pub open spec fn scaled_magnitude(m: int) -> int {
    let exponent = m / SIGNIFICAND_RANGE as int;
    let fraction = m % SIGNIFICAND_RANGE as int;
    if exponent == 0 {
        fraction
    } else {
        (SIGNIFICAND_RANGE + fraction) * pow2((exponent - 1) as nat)
    }
}

impl Real {
    /// The pattern without its sign bit.
    pub open spec fn magnitude(self) -> int {
        if self.bits >= SIGN_BIT {
            self.bits - SIGN_BIT
        } else {
            self.bits as int
        }
    }

    /// Whether the value is not a number.
    pub open spec fn nan(self) -> bool {
        self.magnitude() > INFINITY_BITS
    }

    /// Whether the value is a finite number.
    pub open spec fn finite(self) -> bool {
        self.magnitude() < INFINITY_BITS
    }

    /// The position of the value in the numeric order; both zeros have rank 0.
    pub open spec fn rank(self) -> int {
        if self.bits >= SIGN_BIT {
            -self.magnitude()
        } else {
            self.magnitude()
        }
    }

    /// The numeric value of a finite pattern in units of the smallest subnormal.
    pub open spec fn scaled(self) -> int {
        if self.bits >= SIGN_BIT {
            -scaled_magnitude(self.magnitude())
        } else {
            scaled_magnitude(self.magnitude())
        }
    }

    /// Numeric `<`; false when either side is a NaN.
    pub open spec fn below(self, other: Real) -> bool {
        !self.nan() && !other.nan() && self.rank() < other.rank()
    }

    /// Numeric `<=`; false when either side is a NaN.
    pub open spec fn at_most(self, other: Real) -> bool {
        !self.nan() && !other.nan() && self.rank() <= other.rank()
    }

    /// The value with the given bit pattern.
    pub fn from_bits(bits: u64) -> (r: Real)
        ensures
            r.bits == bits,
    {
        Real { bits }
    }

    /// The bit pattern of the value.
    pub fn to_bits(self) -> (bits: u64)
        ensures
            bits == self.bits,
    {
        self.bits
    }

    /// The pattern without its sign bit.
    fn magnitude_bits(self) -> (m: u64)
        ensures
            m == self.magnitude(),
    {
        if self.bits >= SIGN_BIT {
            self.bits - SIGN_BIT
        } else {
            self.bits
        }
    }

    /// Whether the value is not a number.
    pub fn is_nan(self) -> (b: bool)
        ensures
            b == self.nan(),
    {
        self.magnitude_bits() > INFINITY_BITS
    }

    /// Numeric `<`.
    pub fn lt(self, other: Real) -> (b: bool)
        ensures
            b == self.below(other),
    {
        if self.is_nan() || other.is_nan() {
            return false;
        }
        let a: u64 = self.magnitude_bits();
        let b: u64 = other.magnitude_bits();
        if self.bits >= SIGN_BIT {
            if other.bits >= SIGN_BIT {
                b < a
            } else {
                a != 0 || b != 0
            }
        } else if other.bits >= SIGN_BIT {
            false
        } else {
            a < b
        }
    }

    /// Numeric `<=`.
    pub fn le(self, other: Real) -> (b: bool)
        ensures
            b == self.at_most(other),
    {
        if self.is_nan() || other.is_nan() {
            return false;
        }
        !other.lt(self)
    }

    /// Numeric `>`.
    pub fn gt(self, other: Real) -> (b: bool)
        ensures
            b == other.below(self),
    {
        other.lt(self)
    }

    /// Numeric `>=`.
    pub fn ge(self, other: Real) -> (b: bool)
        ensures
            b == other.at_most(self),
    {
        other.le(self)
    }

    /// The absolute value: the pattern with its sign bit cleared.
    pub fn abs(self) -> (r: Real)
        ensures
            r.bits == self.magnitude(),
    {
        Real { bits: self.magnitude_bits() }
    }
}

/// The value zero.
pub open spec fn zero() -> Real {
    Real { bits: 0 }
}

/// Larger magnitudes stand for larger values.
proof fn lemma_scaled_magnitude_increases(a: int, b: int)
    requires
        0 <= a < b,
    ensures
        scaled_magnitude(a) < scaled_magnitude(b),
        0 <= scaled_magnitude(a),
{
    let range = SIGNIFICAND_RANGE as int;
    let (ea, fa) = (a / range, a % range);
    let (eb, fb) = (b / range, b % range);
    assert(a == ea * range + fa && b == eb * range + fb && 0 <= ea <= eb);
    if eb > 0 {
        lemma_pow2_pos((eb - 1) as nat);
        let pb = pow2((eb - 1) as nat) as int;
        assert((range + fb) * pb >= range * pb) by (nonlinear_arith)
            requires
                fb >= 0,
                pb > 0,
                range > 0,
        ;
        if ea == 0 {
            assert(range * pb >= range) by (nonlinear_arith)
                requires
                    pb >= 1,
                    range > 0,
            ;
        } else {
            lemma_pow2_pos((ea - 1) as nat);
            let pa = pow2((ea - 1) as nat) as int;
            assert(0 <= (range + fa) * pa) by (nonlinear_arith)
                requires
                    fa >= 0,
                    pa > 0,
                    range > 0,
            ;
            if ea == eb {
                assert((range + fa) * pa < (range + fb) * pa) by (nonlinear_arith)
                    requires
                        fa < fb,
                        pa > 0,
                ;
            } else {
                lemma_pow2_unfold(ea as nat);
                if ea < eb - 1 {
                    lemma_pow2_strictly_increases(ea as nat, (eb - 1) as nat);
                }
                assert((range + fa) * pa < 2 * range * pa) by (nonlinear_arith)
                    requires
                        fa < range,
                        pa > 0,
                ;
                assert(2 * range * pa <= range * pb) by (nonlinear_arith)
                    requires
                        2 * pa <= pb,
                        range > 0,
                ;
            }
        }
    }
}

/// The order of the patterns is the order of the numbers they stand for.
pub proof fn law_order_is_numeric(a: Real, b: Real)
    requires
        a.finite(),
        b.finite(),
    ensures
        a.below(b) <==> a.scaled() < b.scaled(),
        a.at_most(b) <==> a.scaled() <= b.scaled(),
{
    let (ma, mb) = (a.magnitude(), b.magnitude());
    if ma < mb {
        lemma_scaled_magnitude_increases(ma, mb);
    }
    if mb < ma {
        lemma_scaled_magnitude_increases(mb, ma);
    }
    if 0 < ma {
        lemma_scaled_magnitude_increases(0, ma);
    }
    if 0 < mb {
        lemma_scaled_magnitude_increases(0, mb);
    }
}

/// The numeric order is irreflexive and transitive, and total on numbers.
pub proof fn law_order_is_total(a: Real, b: Real, c: Real)
    ensures
        !a.below(a),
        a.below(b) && b.below(c) ==> a.below(c),
        !a.nan() && !b.nan() ==> (a.below(b) || b.at_most(a)),
        a.at_most(b) ==> !b.below(a),
{
}

} // verus!
