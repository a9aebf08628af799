//! Double-precision numbers by their bit patterns.
//!
//! The library compares such numbers and carries them from place to place. It does not calculate
//! with them: whoever needs a sum or a quotient works it out and hands the bits in.
use vstd::arithmetic::power2::{
    lemma2_to64, lemma2_to64_rest, lemma_pow2_pos, lemma_pow2_strictly_increases, pow2,
};
use vstd::bits::{lemma_u64_shl_is_mul, lemma_u64_shr_is_div};
use vstd::prelude::*;

verus! {

/// The pattern of the sign bit alone.
pub const SIGN: u64 = 0x8000_0000_0000_0000;

/// The pattern of positive infinity: a larger magnitude is no number.
pub const INFINITY: u64 = 0x7FF0_0000_0000_0000;

/// A double-precision number, held as its bits.
///
/// Two values are equal under `==` where their bits are. The order of the numbers that the bits
/// stand for is `Real::exceeds`.
#[derive(Debug, Clone, Copy, PartialEq, Eq, Structural)]
pub struct Real {
    pub bits: u64,
}

/// The bits without the sign.
pub open spec fn magnitude(bits: u64) -> u64 {
    if bits < SIGN {
        bits
    } else {
        (bits - SIGN) as u64
    }
}

/// A place on the number line: numbers are ordered as their places are, and the two zeros share
/// one.
pub open spec fn place(bits: u64) -> int {
    if bits < SIGN {
        bits as int
    } else {
        SIGN - bits
    }
}

/// The bits stand for no number.
pub open spec fn nan(bits: u64) -> bool {
    magnitude(bits) > INFINITY
}

/// `a` is a larger number than `b`. Nothing is larger or smaller than a pattern that is no number.
pub open spec fn larger(a: Real, b: Real) -> bool {
    !nan(a.bits) && !nan(b.bits) && place(a.bits) > place(b.bits)
}

/// `a` is a number no smaller than `b`.
pub open spec fn at_least(a: Real, b: Real) -> bool {
    !nan(a.bits) && !nan(b.bits) && place(a.bits) >= place(b.bits)
}

/// The bits stand for a number between zero and two to the 53rd, and no number of that form is
/// nearer to `numerator / denominator`.
pub open spec fn nearest(bits: u64, numerator: nat, denominator: nat) -> bool {
    let exponent = bits / 0x10_0000_0000_0000;
    let digits = 0x10_0000_0000_0000 + bits % 0x10_0000_0000_0000;
    let scale = pow2((1075 - exponent) as nat);
    &&& 0 < exponent <= 1075
    &&& -denominator <= 2 * (digits * denominator - numerator * scale) <= denominator
}

/// The whole part of a number as an unsigned integer: zero for what is below zero or no number,
/// the largest integer for what is above it.
pub open spec fn whole_part(bits: u64) -> u64 {
    let exponent = bits / 0x10_0000_0000_0000;
    let digits = 0x10_0000_0000_0000 + bits % 0x10_0000_0000_0000;
    if nan(bits) || bits >= SIGN || exponent < 1023 {
        0
    } else if exponent <= 1075 {
        (digits / pow2((1075 - exponent) as nat) as int) as u64
    } else if digits * pow2((exponent - 1075) as nat) <= u64::MAX {
        (digits * pow2((exponent - 1075) as nat)) as u64
    } else {
        u64::MAX
    }
}

impl Real {
    /// Zero.
    pub open spec fn spec_zero() -> Real {
        Real { bits: 0 }
    }

    /// Zero.
    pub fn zero() -> (r: Real)
        ensures
            r == Real::spec_zero(),
    {
        Real { bits: 0 }
    }

    /// Whether the bits stand for no number.
    pub fn is_nan(self) -> (r: bool)
        ensures
            r == nan(self.bits),
    {
        if self.bits < SIGN {
            self.bits > INFINITY
        } else {
            self.bits - SIGN > INFINITY
        }
    }

    /// The whole part as an unsigned integer, as far as there is one.
    pub fn to_whole(self) -> (r: u64)
        ensures
            r == whole_part(self.bits),
    {
        let exponent: u64 = self.bits / 0x10_0000_0000_0000;
        if self.is_nan() || self.bits >= SIGN || exponent < 1023 {
            return 0;
        }
        let digits: u64 = 0x10_0000_0000_0000 + self.bits % 0x10_0000_0000_0000;
        proof {
            lemma2_to64();
            lemma2_to64_rest();
        }
        if exponent <= 1075 {
            let shift: u64 = 1075 - exponent;
            proof {
                lemma_u64_shr_is_div(digits, shift);
                lemma_pow2_pos(shift as nat);
            }
            digits >> shift
        } else if exponent <= 1086 {
            let shift: u64 = exponent - 1075;
            proof {
                if shift < 11 {
                    lemma_pow2_strictly_increases(shift as nat, 11);
                }
                assert(digits * pow2(shift as nat) <= 0x1F_FFFF_FFFF_FFFF * 2048)
                    by (nonlinear_arith)
                    requires
                        digits <= 0x1F_FFFF_FFFF_FFFF,
                        pow2(shift as nat) <= 2048,
                ;
                lemma_u64_shl_is_mul(digits, shift);
            }
            digits << shift
        } else {
            proof {
                let shift = (exponent - 1075) as nat;
                if shift > 12 {
                    lemma_pow2_strictly_increases(12, shift);
                }
                assert(digits * pow2(shift) >= 0x10_0000_0000_0000 * 4096) by (nonlinear_arith)
                    requires
                        digits >= 0x10_0000_0000_0000,
                        pow2(shift) >= 4096,
                ;
            }
            u64::MAX
        }
    }

    /// Whether this number is larger than the other.
    pub fn exceeds(self, other: Real) -> (r: bool)
        ensures
            r == larger(self, other),
    {
        if self.is_nan() || other.is_nan() {
            return false;
        }
        if self.bits < SIGN {
            if other.bits < SIGN {
                self.bits > other.bits
            } else {
                self.bits != 0 || other.bits != SIGN
            }
        } else if other.bits < SIGN {
            false
        } else {
            self.bits < other.bits
        }
    }
}

impl Real {
    /// Whether this number is no smaller than the other.
    pub fn reaches(self, other: Real) -> (r: bool)
        ensures
            r == at_least(self, other),
    {
        !self.is_nan() && !other.is_nan() && !other.exceeds(self)
    }
}

/// Of any two numbers exactly one of these holds: the first is larger, the second is larger, or
/// they share a place.
pub proof fn order_is_total(a: Real, b: Real)
    requires
        !nan(a.bits),
        !nan(b.bits),
    ensures
        !(larger(a, b) && larger(b, a)),
        larger(a, b) || larger(b, a) || place(a.bits) == place(b.bits),
        place(a.bits) == place(b.bits) ==> !larger(a, b) && !larger(b, a),
{
}

/// What is larger than a larger number is larger.
pub proof fn order_is_transitive(a: Real, b: Real, c: Real)
    requires
        larger(a, b),
        larger(b, c),
    ensures
        larger(a, c),
{
}

/// A pattern is no number where its exponent is the largest there is and its digits are not all
/// zero, whatever its sign.
pub proof fn patterns_that_are_no_numbers(bits: u64)
    ensures
        nan(bits) <==> (bits % 0x8000_0000_0000_0000) / 0x10_0000_0000_0000 == 0x7ff && bits
            % 0x10_0000_0000_0000 != 0,
{
}

/// The whole part of a number is the largest integer that is no larger: the number, which is its
/// digits by a power of two, lies between that integer and the next. What is below one has none.
pub proof fn whole_parts_are_rounded_down(bits: u64)
    ensures
        bits < 0x3ff0_0000_0000_0000 ==> whole_part(bits) == 0,
        bits >= 0x8000_0000_0000_0000 ==> whole_part(bits) == 0,
        0x3ff0_0000_0000_0000 <= bits < 0x4340_0000_0000_0000 ==> {
            let scale = pow2((1075 - bits / 0x10_0000_0000_0000) as nat);
            let digits = 0x10_0000_0000_0000 + bits % 0x10_0000_0000_0000;
            whole_part(bits) * scale <= digits < (whole_part(bits) + 1) * scale
        },
{
    if 0x3ff0_0000_0000_0000 <= bits < 0x4340_0000_0000_0000 {
        let exponent = bits / 0x10_0000_0000_0000;
        let scale = pow2((1075 - exponent) as nat);
        let digits = 0x10_0000_0000_0000 + bits % 0x10_0000_0000_0000;
        vstd::arithmetic::power2::lemma_pow2_pos((1075 - exponent) as nat);
        let q = digits / scale as int;
        vstd::arithmetic::div_mod::lemma_fundamental_div_mod(digits, scale as int);
        assert(0 <= q <= digits) by (nonlinear_arith)
            requires
                q == digits / (scale as int),
                scale >= 1,
                digits >= 0,
        ;
        assert(whole_part(bits) == q);
        assert(q * scale <= digits < (q + 1) * scale) by (nonlinear_arith)
            requires
                digits == (scale as int) * q + digits % (scale as int),
                0 <= digits % (scale as int) < scale,
        ;
    }
}

} // verus!
