//! Quality scores, held as the bit patterns of single-precision numbers.
use vstd::arithmetic::power2::pow2;
use vstd::prelude::*;

verus! {

/// The bit pattern of zero, the worst score.
pub const ZERO_BITS: u32 = 0;

/// The bit pattern of one half.
pub const HALF_BITS: u32 = 0x3f00_0000;

/// The bit pattern of one, the best score.
pub const ONE_BITS: u32 = 0x3f80_0000;

/// The bit pattern of positive infinity; the patterns between it and the sign
/// bit are not numbers.
pub const INFINITY_BITS: u32 = 0x7f80_0000;

/// The sign bit.
pub const SIGN_BIT: u32 = 0x8000_0000;

/// How many steps a bit pattern's fraction has before its exponent grows.
pub const FRACTION_STEPS: u32 = 0x0080_0000;

/// How good a piece of data is, from zero to one.
///
/// A score is a single-precision number in the IEEE 754 binary32 format, held
/// as its bit pattern: the sign bit, eight bits of exponent, and twenty-three
/// bits of fraction.
#[derive(Debug, Clone, Copy)]
pub struct Score {
    pub bits: u32,
}

impl Score {
    /// The sign bit is set.
    pub open spec fn is_negative(self) -> bool {
        self.bits >= SIGN_BIT
    }

    /// The bit pattern without its sign.
    pub open spec fn magnitude(self) -> int {
        self.bits as int % SIGN_BIT as int
    }

    /// The bit pattern is not a number.
    pub open spec fn is_nan(self) -> bool {
        self.magnitude() > INFINITY_BITS
    }

    /// The number that the score denotes, counted in units of the least
    /// positive number of the format. Every finite number of the format is a
    /// whole number of these units; an infinity counts as the first power of
    /// two that is out of range.
    pub open spec fn units(self) -> int {
        if self.is_negative() {
            -magnitude_units(self.magnitude())
        } else {
            magnitude_units(self.magnitude())
        }
    }

    /// How many units make one.
    pub open spec fn one_units() -> int {
        pow2(149) as int
    }

    /// The score lies between zero and one, and is not a negative zero.
    pub open spec fn in_unit_range(self) -> bool {
        &&& !self.is_nan()
        &&& !self.is_negative()
        &&& 0 <= self.units() <= Self::one_units()
    }

    /// The score brought into the range from zero to one.
    pub open spec fn clamp(self) -> Self {
        if self.is_nan() || self.is_negative() {
            Score { bits: ZERO_BITS }
        } else if self.units() > Self::one_units() {
            Score { bits: ONE_BITS }
        } else {
            self
        }
    }

    /// Brings the score into the range from zero to one. What is not a number
    /// becomes zero, and so does everything with a sign.
    pub fn clamped(self) -> (score: Self)
        ensures
            score == self.clamp(),
            score.in_unit_range(),
    {
        proof {
            lemma_half_and_one();
            lemma_units_ordered(0, self.magnitude());
            if self.magnitude() < ONE_BITS {
                lemma_units_ordered(self.magnitude(), ONE_BITS as int);
            } else if self.magnitude() > ONE_BITS {
                lemma_units_ordered(ONE_BITS as int, self.magnitude());
            }
            lemma_units_ordered(0, ONE_BITS as int);
        }
        if self.bits >= SIGN_BIT || self.bits > INFINITY_BITS {
            Score { bits: ZERO_BITS }
        } else if self.bits > ONE_BITS {
            Score { bits: ONE_BITS }
        } else {
            self
        }
    }
}

/// The units of a bit pattern without a sign: the fraction alone where the
/// exponent is zero, and else the fraction behind its implied leading bit,
/// shifted by the exponent.
pub open spec fn magnitude_units(magnitude: int) -> int {
    let exponent = magnitude / FRACTION_STEPS as int;
    let fraction = magnitude % FRACTION_STEPS as int;
    if exponent <= 0 {
        fraction
    } else {
        (FRACTION_STEPS + fraction) * pow2((exponent - 1) as nat)
    }
}

/// The patterns of one half and of one denote these numbers, and zero denotes
/// zero.
pub proof fn lemma_half_and_one()
    ensures
        magnitude_units(ZERO_BITS as int) == 0,
        2 * magnitude_units(HALF_BITS as int) == Score::one_units(),
        magnitude_units(ONE_BITS as int) == Score::one_units(),
{
    vstd::arithmetic::power2::lemma2_to64();
    vstd::arithmetic::power2::lemma_pow2_adds(23, 125);
    vstd::arithmetic::power2::lemma_pow2_adds(23, 126);
    vstd::arithmetic::power2::lemma_pow2_unfold(149);
    assert(HALF_BITS as int / FRACTION_STEPS as int == 126);
    assert(ONE_BITS as int / FRACTION_STEPS as int == 127);
}

/// Bit patterns without a sign are in the order of the numbers that they denote.
pub proof fn lemma_units_ordered(a: int, b: int)
    requires
        0 <= a <= b,
    ensures
        a < b ==> magnitude_units(a) < magnitude_units(b),
{
    let steps = FRACTION_STEPS as int;
    let ea = a / steps;
    let eb = b / steps;
    let fa = a % steps;
    let fb = b % steps;
    if ea == eb {
        if ea > 0 && a < b {
            let p = pow2((ea - 1) as nat) as int;
            vstd::arithmetic::power2::lemma_pow2_pos((ea - 1) as nat);
            assert((steps + fa) * p < (steps + fb) * p) by (nonlinear_arith)
                requires
                    fa < fb,
                    p > 0,
            ;
        }
    } else {
        let pa = pow2(ea as nat) as int;
        let pb = pow2((eb - 1) as nat) as int;
        vstd::arithmetic::power2::lemma_pow2_pos(ea as nat);
        if ea < eb - 1 {
            vstd::arithmetic::power2::lemma_pow2_strictly_increases(ea as nat, (eb - 1) as nat);
        }
        assert(magnitude_units(a) < steps * pa) by {
            if ea > 0 {
                let half = pow2((ea - 1) as nat) as int;
                vstd::arithmetic::power2::lemma_pow2_unfold(ea as nat);
                vstd::arithmetic::power2::lemma_pow2_pos((ea - 1) as nat);
                assert((steps + fa) * half < steps * (2 * half)) by (nonlinear_arith)
                    requires
                        fa < steps,
                        half > 0,
                ;
            } else {
                vstd::arithmetic::power2::lemma2_to64();
            }
        }
        assert(steps * pa <= (steps + fb) * pb) by (nonlinear_arith)
            requires
                0 < steps,
                0 <= fb,
                0 < pa <= pb,
        ;
    }
}

} // verus!
