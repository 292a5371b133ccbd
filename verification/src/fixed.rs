//! Fixed-point fractions.
//!
//! Every fractional quantity this crate stores or computes with (speech
//! probabilities, token confidences, decoder thresholds) is an integer count
//! of millionths. Scores that arrive as IEEE-754 single-precision bit
//! patterns are decoded here with integer arithmetic only.

use vstd::arithmetic::power2::{
    lemma2_to64, lemma_pow2_pos, lemma_pow2_strictly_increases, lemma_pow2_unfold, pow2,
};
use vstd::bits::{lemma_u64_shl_is_mul, lemma_u64_shr_is_div};
use vstd::prelude::*;

verus! {

/// The fixed-point representation of 1.
pub const MICROS_ONE: u32 = 1_000_000;

/// The biased exponent field of a single-precision bit pattern.
pub open spec fn ieee_exponent(bits: u32) -> int {
    (bits as int / 0x80_0000) % 256
}

/// The fraction field of a single-precision bit pattern.
pub open spec fn ieee_fraction(bits: u32) -> int {
    bits as int % 0x80_0000
}

/// The significand of a finite pattern: the fraction field, with the implicit
/// leading one for normal numbers.
pub open spec fn ieee_significand(bits: u32) -> int {
    if ieee_exponent(bits) == 0 {
        ieee_fraction(bits)
    } else {
        ieee_fraction(bits) + 0x80_0000
    }
}

/// The scale of a pattern below one: its magnitude is
/// `ieee_significand(bits) / 2^ieee_scale(bits)`.
pub open spec fn ieee_scale(bits: u32) -> nat {
    if ieee_exponent(bits) == 0 {
        149
    } else {
        (150 - ieee_exponent(bits)) as nat
    }
}

/// The number of millionths nearest to the value encoded by `bits`, with the
/// value first clamped to the unit interval. Negative values and NaN count as
/// zero; one, anything above it and infinity count as one. Ties round up.
pub open spec fn micros_of_bits(bits: u32) -> int {
    if bits >= 0x8000_0000 || (ieee_exponent(bits) == 255 && ieee_fraction(bits) != 0) {
        0
    } else if ieee_exponent(bits) >= 127 {
        1_000_000
    } else {
        (2 * ieee_significand(bits) * 1_000_000 + pow2(ieee_scale(bits))) / (pow2(
            ieee_scale(bits) + 1,
        ) as int)
    }
}

proof fn lemma_rounded_quotient_zero(num: int, k: nat)
    requires
        0 <= num < 0x2000_0000_0000,
        k >= 46,
    ensures
        (num + pow2(k)) / (pow2(k + 1) as int) == 0,
{
    lemma2_to64();
    lemma2_to64_high();
    if k > 46 {
        lemma_pow2_strictly_increases(46, k);
    }
    lemma_pow2_unfold(k + 1);
    let d: int = pow2(k + 1) as int;
    assert(0 <= num + pow2(k) < d);
    assert((num + pow2(k)) / d == 0) by (nonlinear_arith)
        requires
            0 <= num + pow2(k) < d,
    ;
}

proof fn lemma2_to64_high()
    ensures
        pow2(45) == 0x2000_0000_0000,
        pow2(46) == 0x4000_0000_0000,
{
    lemma2_to64();
    lemma_pow2_unfold(33);
    lemma_pow2_unfold(34);
    lemma_pow2_unfold(35);
    lemma_pow2_unfold(36);
    lemma_pow2_unfold(37);
    lemma_pow2_unfold(38);
    lemma_pow2_unfold(39);
    lemma_pow2_unfold(40);
    lemma_pow2_unfold(41);
    lemma_pow2_unfold(42);
    lemma_pow2_unfold(43);
    lemma_pow2_unfold(44);
    lemma_pow2_unfold(45);
    lemma_pow2_unfold(46);
}

/// A pattern below one never rounds to more than a million millionths.
pub proof fn lemma_micros_of_bits_bounded(bits: u32)
    ensures
        0 <= micros_of_bits(bits) <= MICROS_ONE,
{
    if bits >= 0x8000_0000 || (ieee_exponent(bits) == 255 && ieee_fraction(bits) != 0) {
    } else if ieee_exponent(bits) >= 127 {
    } else {
        let k = ieee_scale(bits);
        let sig = ieee_significand(bits);
        let p: int = pow2(k) as int;
        lemma2_to64();
        if k > 24 {
            lemma_pow2_strictly_increases(24, k);
        }
        lemma_pow2_unfold(k + 1);
        assert(p >= 0x100_0000);
        assert(0 <= sig < 0x100_0000);
        let num: int = 2 * sig * 1_000_000 + p;
        let d: int = pow2(k + 1) as int;
        assert(d == 2 * p);
        assert(num < 1_000_001 * d) by (nonlinear_arith)
            requires
                num == 2 * sig * 1_000_000 + p,
                d == 2 * p,
                0 <= sig < p,
        ;
        assert(0 <= num / d <= 1_000_000) by (nonlinear_arith)
            requires
                0 <= num < 1_000_001 * d,
                d > 0,
        ;
    }
}

/// Decodes a single-precision bit pattern into millionths.
pub fn micros_from_bits(bits: u32) -> (micros: u32)
    ensures
        micros == micros_of_bits(bits),
        micros <= MICROS_ONE,
{
    proof {
        lemma_micros_of_bits_bounded(bits);
    }
    let exponent: u32 = (bits / 0x80_0000) % 256;
    let fraction: u32 = bits % 0x80_0000;
    if bits >= 0x8000_0000 || (exponent == 255 && fraction != 0) {
        return 0;
    }
    if exponent >= 127 {
        return MICROS_ONE;
    }
    let significand: u64 = if exponent == 0 {
        fraction as u64
    } else {
        fraction as u64 + 0x80_0000
    };
    let scale: u64 = if exponent == 0 {
        149
    } else {
        150 - exponent as u64
    };
    let doubled: u64 = 2 * significand * 1_000_000;
    if scale >= 46 {
        proof {
            lemma_rounded_quotient_zero(doubled as int, scale as nat);
        }
        return 0;
    }
    proof {
        lemma2_to64();
        lemma2_to64_high();
        lemma_pow2_pos(scale as nat);
        if scale < 45 {
            lemma_pow2_strictly_increases(scale as nat, 45);
        }
        lemma_u64_shl_is_mul(1, scale);
        lemma_u64_shr_is_div((doubled + (1u64 << scale)) as u64, (scale + 1) as u64);
    }
    let rounded: u64 = (doubled + (1u64 << scale)) >> (scale + 1);
    rounded as u32
}

} // verus!
