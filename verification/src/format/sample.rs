//! Normalized samples.
//!
//! A sample of a normalized color format is a single-precision number, held
//! as its IEEE 754 binary32 bit pattern in a `u32`: one sign bit, eight
//! exponent bits, twenty-three fraction bits.
//!
//! Among the patterns of one sign the order of the numbers is the order of
//! the patterns. So the unit range `[0, 1]` is defined here by comparing
//! patterns as integers. What a pattern stands for is defined from its three
//! fields, and `lemma_range_meaning` proves that the patterns which the
//! definitions single out are those of the numbers below zero and above one.

use vstd::arithmetic::power2::lemma2_to64;
use vstd::arithmetic::power2::lemma_pow2_adds;
use vstd::arithmetic::power2::lemma_pow2_pos;
use vstd::arithmetic::power2::lemma_pow2_strictly_increases;
use vstd::arithmetic::power2::lemma_pow2_unfold;
use vstd::arithmetic::power2::pow2;
use vstd::prelude::*;

verus! {

/// The bit pattern of `0.0`.
pub const ZERO: u32 = 0x0000_0000;

/// The bit pattern of `1.0`.
pub const ONE: u32 = 0x3F80_0000;

/// The bit pattern of positive infinity.
pub const INFINITY: u32 = 0x7F80_0000;

/// The bit pattern of `-0.0`: the sign bit alone.
pub const NEG_ZERO: u32 = 0x8000_0000;

/// The bit pattern of negative infinity.
pub const NEG_INFINITY: u32 = 0xFF80_0000;

/// The sign bit of the pattern is set.
pub open spec fn is_negative(bits: u32) -> bool {
    bits >= NEG_ZERO
}

/// The pattern without its sign bit.
pub open spec fn magnitude(bits: u32) -> int {
    if bits >= NEG_ZERO {
        bits - NEG_ZERO
    } else {
        bits as int
    }
}

/// The exponent field of the pattern: the eight bits below the sign bit.
pub open spec fn exponent(bits: u32) -> int {
    magnitude(bits) / 0x80_0000
}

/// The fraction field of the pattern: the lowest twenty-three bits.
pub open spec fn fraction(bits: u32) -> int {
    magnitude(bits) % 0x80_0000
}

/// The pattern stands for a finite number: not all exponent bits are set.
pub open spec fn is_finite(bits: u32) -> bool {
    exponent(bits) < 0xFF
}

/// The pattern stands for an infinity: all exponent bits are set and the
/// fraction is zero.
pub open spec fn is_infinite(bits: u32) -> bool {
    exponent(bits) == 0xFF && fraction(bits) == 0
}

/// The pattern is not a number: all exponent bits are set and the fraction
/// is not zero.
pub open spec fn is_nan(bits: u32) -> bool {
    exponent(bits) == 0xFF && fraction(bits) != 0
}

/// The absolute value of the number that a finite pattern stands for,
/// counted in units of the smallest positive number, two to the power of
/// -149. With a zero exponent field that count is the fraction field; with an
/// exponent field of `e` it is the fraction field with a leading one bit,
/// times two to the power of `e - 1`.
pub open spec fn units(bits: u32) -> nat {
    if exponent(bits) == 0 {
        fraction(bits) as nat
    } else {
        ((0x80_0000 + fraction(bits)) * pow2((exponent(bits) - 1) as nat)) as nat
    }
}

/// The pattern stands for a number less than zero. Negative zero is not
/// less than zero, and what is not a number is not either.
pub open spec fn is_less_than_zero(bits: u32) -> bool {
    &&& is_negative(bits)
    &&& !is_nan(bits)
    &&& is_infinite(bits) || units(bits) > 0
}

/// The pattern stands for a number greater than one.
pub open spec fn is_greater_than_one(bits: u32) -> bool {
    &&& !is_negative(bits)
    &&& !is_nan(bits)
    &&& is_infinite(bits) || units(bits) > units(ONE)
}

/// The sample is a number less than zero: its pattern lies above that of
/// negative zero and not above that of negative infinity.
pub open spec fn below_zero(bits: u32) -> bool {
    NEG_ZERO < bits <= NEG_INFINITY
}

/// The sample is a number greater than one: its pattern lies above that of
/// one and not above that of positive infinity.
pub open spec fn above_one(bits: u32) -> bool {
    ONE < bits <= INFINITY
}

/// The sample does not violate the unit range: it is neither less than zero
/// nor greater than one. A pattern that is not a number compares as neither,
/// so it does not violate the range.
pub open spec fn in_unit_range(bits: u32) -> bool {
    !below_zero(bits) && !above_one(bits)
}

/// The sample brought into the unit range: zero for a sample below zero, one
/// for a sample above one, and the sample itself otherwise.
pub open spec fn clamped(bits: u32) -> u32 {
    if below_zero(bits) {
        ZERO
    } else if above_one(bits) {
        ONE
    } else {
        bits
    }
}

/// Zero counts no units, and one counts two to the power of 149 of them.
pub proof fn lemma_units_of_zero_and_one()
    ensures
        units(ZERO) == 0,
        units(NEG_ZERO) == 0,
        units(ONE) == pow2(149),
{
    lemma2_to64();
    lemma_pow2_adds(23, 126);
    assert(exponent(ONE) == 127 && fraction(ONE) == 0);
}

/// Among finite patterns, the one with the smaller magnitude stands for the
/// number with the smaller absolute value.
pub proof fn lemma_units_order(a: u32, b: u32)
    requires
        is_finite(a),
        is_finite(b),
        magnitude(a) < magnitude(b),
    ensures
        units(a) < units(b),
{
    let ea = exponent(a);
    let eb = exponent(b);
    let fa = fraction(a);
    let fb = fraction(b);
    assert(magnitude(a) == ea * 0x80_0000 + fa && 0 <= fa < 0x80_0000);
    assert(magnitude(b) == eb * 0x80_0000 + fb && 0 <= fb < 0x80_0000);
    assert(ea <= eb);
    if eb == 0 {
        assert(ea == 0 && fa < fb);
    } else {
        let pb = pow2((eb - 1) as nat);
        lemma_pow2_pos((eb - 1) as nat);
        if ea == eb {
            assert((0x80_0000 + fa) * pb < (0x80_0000 + fb) * pb) by (nonlinear_arith)
                requires
                    fa < fb,
                    pb > 0,
            ;
        } else if ea == 0 {
            assert(0x80_0000 <= (0x80_0000 + fb) * pb) by (nonlinear_arith)
                requires
                    0 <= fb,
                    pb >= 1,
            ;
        } else {
            let pa = pow2((ea - 1) as nat);
            lemma_pow2_pos((ea - 1) as nat);
            lemma_pow2_unfold(ea as nat);
            if ea < eb - 1 {
                lemma_pow2_strictly_increases(ea as nat, (eb - 1) as nat);
            }
            assert(2 * pa <= pb);
            assert((0x80_0000 + fa) * pa < (0x80_0000 + fb) * pb) by (nonlinear_arith)
                requires
                    0 <= fa < 0x80_0000,
                    0 <= fb,
                    pa > 0,
                    2 * pa <= pb,
            ;
        }
    }
}

/// The samples below zero are the patterns that stand for a number less
/// than zero, and the samples above one are the patterns that stand for a
/// number greater than one.
pub proof fn lemma_range_meaning(bits: u32)
    ensures
        below_zero(bits) <==> is_less_than_zero(bits),
        above_one(bits) <==> is_greater_than_one(bits),
{
    let m = magnitude(bits);
    assert(m == exponent(bits) * 0x80_0000 + fraction(bits) && 0 <= fraction(bits) < 0x80_0000);
    assert(exponent(ONE) == 127 && fraction(ONE) == 0 && magnitude(ONE) == ONE);
    assert(exponent(ZERO) == 0 && fraction(ZERO) == 0 && magnitude(ZERO) == 0);
    if is_finite(bits) {
        if m > magnitude(ONE) {
            lemma_units_order(ONE, bits);
        } else if m < magnitude(ONE) {
            lemma_units_order(bits, ONE);
        } else {
            assert(exponent(bits) == 127 && fraction(bits) == 0);
        }
        if m > 0 {
            lemma_units_order(ZERO, bits);
        } else {
            assert(exponent(bits) == 0 && fraction(bits) == 0);
        }
    }
}

/// Tells whether the sample lies within the unit range.
pub fn is_in_unit_range(bits: u32) -> (b: bool)
    ensures
        b == in_unit_range(bits),
{
    !(NEG_ZERO < bits && bits <= NEG_INFINITY) && !(ONE < bits && bits <= INFINITY)
}

/// Brings the sample into the unit range.
pub fn clamp(bits: u32) -> (out: u32)
    ensures
        out == clamped(bits),
{
    if NEG_ZERO < bits && bits <= NEG_INFINITY {
        ZERO
    } else if ONE < bits && bits <= INFINITY {
        ONE
    } else {
        bits
    }
}

/// A clamped sample lies within the unit range, clamping leaves a sample
/// within the range as it is, and so clamping twice is clamping once.
pub proof fn lemma_clamped(bits: u32)
    ensures
        in_unit_range(clamped(bits)),
        in_unit_range(bits) <==> clamped(bits) == bits,
        clamped(clamped(bits)) == clamped(bits),
{
}

} // verus!
