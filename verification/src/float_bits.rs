//! The order of single precision numbers, told from their bit patterns.

use vstd::arithmetic::power2::pow2;
use vstd::prelude::*;

verus! {

/// The bit pattern of infinity. What is above it, sign aside, is not a number.
pub const INFINITY_BITS: u32 = 0x7F80_0000;

/// The bit pattern of `22000`.
pub const MAX_FREQUENCY_BITS: u32 = 0x46AB_E000;

/// The bit pattern of `5`.
pub const MIN_FREQUENCY_BITS: u32 = 0x40A0_0000;

/// Whether a bit pattern has its sign bit set.
pub open spec fn is_negative(bits: u32) -> bool {
    bits >= 0x8000_0000
}

/// A bit pattern without its sign bit.
pub open spec fn unsigned(bits: u32) -> u32 {
    if is_negative(bits) {
        (bits - 0x8000_0000) as u32
    } else {
        bits
    }
}

/// Whether a bit pattern does not stand for a number.
pub open spec fn is_nan(bits: u32) -> bool {
    unsigned(bits) > INFINITY_BITS
}

/// The absolute value of a number, in units of `2^-149`, the smallest step between two numbers. Its
/// exponent takes eight bits, and its fraction the lower 23; infinity counts as `2^128`.
pub open spec fn magnitude(bits: u32) -> nat {
    let exponent = (unsigned(bits) / 0x80_0000) as nat;
    let fraction = (unsigned(bits) % 0x80_0000) as nat;
    if exponent == 0 {
        fraction
    } else {
        (0x80_0000 + fraction) * pow2((exponent - 1) as nat)
    }
}

/// A number, in units of `2^-149`.
pub open spec fn value(bits: u32) -> int {
    if is_negative(bits) {
        -(magnitude(bits) as int)
    } else {
        magnitude(bits) as int
    }
}

/// A whole number, in units of `2^-149`.
pub open spec fn whole(n: nat) -> nat {
    n * pow2(149)
}

/// The bit pattern stands for a number, which is `n` or more.
pub open spec fn at_least(bits: u32, n: nat) -> bool {
    !is_nan(bits) && value(bits) >= whole(n)
}

/// The bit pattern stands for a number, which is `n` or less.
pub open spec fn at_most(bits: u32, n: nat) -> bool {
    !is_nan(bits) && value(bits) <= whole(n)
}

/// Among numbers of the same sign, the larger bit pattern has the larger absolute value.
pub proof fn lemma_magnitude_is_monotonic(low: u32, high: u32)
    requires
        low < high < 0x8000_0000,
    ensures
        magnitude(low) < magnitude(high),
{
    let e0 = (low / 0x80_0000) as nat;
    let e1 = (high / 0x80_0000) as nat;
    let f0 = (low % 0x80_0000) as nat;
    let f1 = (high % 0x80_0000) as nat;
    if e0 == e1 {
        if e0 > 0 {
            let scale = pow2((e0 - 1) as nat);
            vstd::arithmetic::power2::lemma_pow2_pos((e0 - 1) as nat);
            assert((0x80_0000 + f0) * scale < (0x80_0000 + f1) * scale) by (nonlinear_arith)
                requires
                    f0 < f1,
                    scale > 0,
            ;
        }
    } else {
        let scale = pow2((e1 - 1) as nat);
        vstd::arithmetic::power2::lemma_pow2_pos((e1 - 1) as nat);
        assert((0x80_0000 + f1) * scale >= 0x80_0000 * scale) by (nonlinear_arith)
            requires
                f1 >= 0,
                scale > 0,
        ;
        if e0 > 0 {
            let below = pow2((e0 - 1) as nat);
            vstd::arithmetic::power2::lemma_pow2_pos((e0 - 1) as nat);
            vstd::arithmetic::power2::lemma_pow2_unfold(e0);
            if e0 < e1 - 1 {
                vstd::arithmetic::power2::lemma_pow2_strictly_increases(e0, (e1 - 1) as nat);
            }
            assert((0x80_0000 + f0) * below < 0x80_0000 * scale) by (nonlinear_arith)
                requires
                    f0 < 0x80_0000,
                    2 * below <= scale,
                    below > 0,
            ;
        }
    }
}

/// The bit patterns of the two ends of the frequency range stand for these whole numbers.
pub proof fn lemma_frequency_bits()
    ensures
        magnitude(MAX_FREQUENCY_BITS) == whole(22_000),
        magnitude(MIN_FREQUENCY_BITS) == whole(5),
{
    vstd::arithmetic::power2::lemma_pow2_adds(140, 9);
    vstd::arithmetic::power2::lemma_pow2_adds(128, 21);
    vstd::arithmetic::power2::lemma2_to64();
    assert(22_000 * (pow2(140) * 512) == (0x80_0000 + 0x2B_E000) * pow2(140)) by (nonlinear_arith);
    assert(5 * (pow2(128) * 0x20_0000) == (0x80_0000 + 0x20_0000) * pow2(128))
        by (nonlinear_arith);
}

/// Whether a number is at or above the highest cutoff frequency.
pub fn is_at_max_frequency(bits: u32) -> (res: bool)
    ensures
        res == at_least(bits, 22_000),
{
    proof {
        lemma_frequency_bits();
        vstd::arithmetic::power2::lemma_pow2_pos(149);
        assert(whole(22_000) > 0) by (nonlinear_arith)
            requires
                pow2(149) > 0,
        ;
        if !is_negative(bits) {
            if bits < MAX_FREQUENCY_BITS {
                lemma_magnitude_is_monotonic(bits, MAX_FREQUENCY_BITS);
            } else if bits > MAX_FREQUENCY_BITS {
                lemma_magnitude_is_monotonic(MAX_FREQUENCY_BITS, bits);
            }
        }
    }
    MAX_FREQUENCY_BITS <= bits && bits <= INFINITY_BITS
}

/// Whether a number is at or below the lowest cutoff frequency.
pub fn is_at_min_frequency(bits: u32) -> (res: bool)
    ensures
        res == at_most(bits, 5),
{
    proof {
        lemma_frequency_bits();
        if !is_negative(bits) {
            if bits < MIN_FREQUENCY_BITS {
                lemma_magnitude_is_monotonic(bits, MIN_FREQUENCY_BITS);
            } else if bits > MIN_FREQUENCY_BITS {
                lemma_magnitude_is_monotonic(MIN_FREQUENCY_BITS, bits);
            }
        }
    }
    if bits < 0x8000_0000 {
        bits <= MIN_FREQUENCY_BITS
    } else {
        bits - 0x8000_0000 <= INFINITY_BITS
    }
}

} // verus!
