//! IEEE 754 single-precision numbers, held as their 32-bit patterns.
//!
//! A pattern is a sign bit, eight exponent bits and twenty-three fraction
//! bits. With a biased exponent `e` between 1 and 254 and a fraction `f`, it
//! stands for the number `(2^23 + f) * 2^(e - 150)`; with the exponent 0 it
//! stands for `f * 2^-149`. Either is negated when the sign bit is set.
//! Magnitudes are counted in units of `2^-149`, which makes them integers.

use vstd::arithmetic::div_mod::lemma_fundamental_div_mod_converse;
use vstd::arithmetic::power2::{
    lemma2_to64, lemma_pow2_adds, lemma_pow2_pos, lemma_pow2_strictly_increases,
    lemma_pow2_unfold, pow2,
};
use vstd::prelude::*;

verus! {

/// The sign bit of a pattern: 1 for a negative number.
pub open spec fn sign_bit(bits: u32) -> int {
    bits as int / 0x8000_0000
}

/// The biased exponent of a pattern.
pub open spec fn exponent_field(bits: u32) -> int {
    (bits as int / 0x80_0000) % 0x100
}

/// The fraction bits of a pattern.
pub open spec fn fraction_field(bits: u32) -> int {
    bits as int % 0x80_0000
}

/// The magnitude bits of a pattern: everything but the sign.
pub open spec fn magnitude_bits(bits: u32) -> int {
    bits as int % 0x8000_0000
}

/// The magnitude bits of the infinities.
pub const INFINITY: u32 = 0x7f80_0000;

/// The absolute value of an integer.
pub open spec fn magnitude(n: int) -> int {
    if n < 0 {
        -n
    } else {
        n
    }
}

/// The magnitude of the single with the magnitude bits `p`, counted in units
/// of `2^-149`. The bits of infinity count as `2^128`, the number that would
/// follow the largest finite one.
pub open spec fn single_size(p: int) -> int {
    if p / 0x80_0000 == 0 {
        p % 0x80_0000
    } else {
        (0x80_0000 + p % 0x80_0000) * pow2((p / 0x80_0000 - 1) as nat)
    }
}

/// The step from one single to the next, in units of `2^-149`.
pub open spec fn step(p: int) -> int {
    if p / 0x80_0000 == 0 {
        1
    } else {
        pow2((p / 0x80_0000 - 1) as nat) as int
    }
}

/// The single after `p` is one step larger.
pub proof fn lemma_next_single(p: int)
    requires
        0 <= p < INFINITY,
    ensures
        single_size(p + 1) == single_size(p) + step(p),
        step(p) > 0,
        single_size(p) >= 0,
{
    let e = p / 0x80_0000;
    let f = p % 0x80_0000;
    assert(p == e * 0x80_0000 + f && 0 <= f < 0x80_0000 && 0 <= e < 0xff) by (nonlinear_arith)
        requires
            e == p / 0x80_0000,
            f == p % 0x80_0000,
            0 <= p < 0x7f80_0000,
    ;
    lemma2_to64();
    if e > 0 {
        lemma_pow2_pos((e - 1) as nat);
        assert((0x80_0000 + f) * pow2((e - 1) as nat) >= 0) by (nonlinear_arith)
            requires
                f >= 0,
                pow2((e - 1) as nat) > 0,
        ;
    }
    if f + 1 < 0x80_0000 {
        lemma_fundamental_div_mod_converse(p + 1, 0x80_0000, e, f + 1);
        if e > 0 {
            let w = pow2((e - 1) as nat) as int;
            assert((0x80_0000 + (f + 1)) * w == (0x80_0000 + f) * w + w) by (nonlinear_arith);
        }
    } else {
        lemma_fundamental_div_mod_converse(p + 1, 0x80_0000, e + 1, 0);
        if e > 0 {
            lemma_pow2_unfold(e as nat);
            let w = pow2((e - 1) as nat) as int;
            assert((0x80_0000 + 0) * (2 * w) == (0x80_0000 + f) * w + w) by (nonlinear_arith)
                requires
                    f + 1 == 0x80_0000,
            ;
        }
    }
}

/// Larger magnitude bits stand for a larger single.
pub proof fn lemma_single_size_increases(a: int, b: int)
    requires
        0 <= a < b <= INFINITY,
    ensures
        0 <= single_size(a) < single_size(b),
    decreases b - a,
{
    lemma_next_single(b - 1);
    lemma_next_single(a);
    if a < b - 1 {
        lemma_single_size_increases(a, b - 1);
    }
}

/// Whether `bits` is the pattern of exactly `num / 2^scale`: a finite
/// pattern with the sign of `num` (positive for zero) and the magnitude
/// `|num| / 2^scale`, which in units of `2^-149` is `|num| * 2^149 / 2^scale`.
pub open spec fn is_ratio(bits: u32, num: int, scale: nat) -> bool {
    &&& sign_bit(bits) == if num < 0 { 1int } else { 0int }
    &&& magnitude_bits(bits) < INFINITY
    &&& single_size(magnitude_bits(bits)) * pow2(scale) == magnitude(num) * pow2(149)
}

/// A pattern is the sum of its three fields, each at its place.
pub proof fn lemma_fields_compose(bits: u32)
    ensures
        bits as int == sign_bit(bits) * 0x8000_0000 + exponent_field(bits) * 0x80_0000
            + fraction_field(bits),
        bits as int == sign_bit(bits) * 0x8000_0000 + magnitude_bits(bits),
        0 <= sign_bit(bits) <= 1,
        0 <= exponent_field(bits) < 0x100,
        0 <= fraction_field(bits) < 0x80_0000,
        0 <= magnitude_bits(bits) < 0x8000_0000,
{
    let b = bits as int;
    assert(b == (b / 0x8000_0000) * 0x8000_0000 + b % 0x8000_0000 && 0 <= b % 0x8000_0000
        < 0x8000_0000) by (nonlinear_arith);
    let upper = b / 0x80_0000;
    assert(b == upper * 0x80_0000 + b % 0x80_0000) by (nonlinear_arith)
        requires
            upper == b / 0x80_0000,
    ;
    assert(upper == (upper / 0x100) * 0x100 + upper % 0x100) by (nonlinear_arith);
    assert(upper / 0x100 == b / 0x8000_0000) by (nonlinear_arith)
        requires
            upper == b / 0x80_0000,
            0 <= b,
    ;
    assert(0 <= b / 0x8000_0000 <= 1) by (nonlinear_arith)
        requires
            0 <= b < 0x1_0000_0000,
    ;
}

/// The fields of a pattern put together from a sign, an exponent and a
/// fraction are that sign, exponent and fraction.
pub proof fn lemma_fields_of_sum(bits: u32, sign: int, exponent: int, fraction: int)
    requires
        0 <= sign <= 1,
        0 <= exponent < 0x100,
        0 <= fraction < 0x80_0000,
        bits as int == sign * 0x8000_0000 + exponent * 0x80_0000 + fraction,
    ensures
        sign_bit(bits) == sign,
        exponent_field(bits) == exponent,
        fraction_field(bits) == fraction,
        magnitude_bits(bits) == exponent * 0x80_0000 + fraction,
        magnitude_bits(bits) / 0x80_0000 == exponent,
        magnitude_bits(bits) % 0x80_0000 == fraction,
{
    let b = bits as int;
    let upper = sign * 0x100 + exponent;
    assert(b == upper * 0x80_0000 + fraction) by (nonlinear_arith)
        requires
            b == sign * 0x8000_0000 + exponent * 0x80_0000 + fraction,
            upper == sign * 0x100 + exponent,
    ;
    lemma_fundamental_div_mod_converse(b, 0x80_0000, upper, fraction);
    lemma_fundamental_div_mod_converse(upper, 0x100, sign, exponent);
    let lower = exponent * 0x80_0000 + fraction;
    assert(0 <= lower < 0x8000_0000) by (nonlinear_arith)
        requires
            lower == exponent * 0x80_0000 + fraction,
            0 <= exponent < 0x100,
            0 <= fraction < 0x80_0000,
    ;
    lemma_fundamental_div_mod_converse(b, 0x8000_0000, sign, lower);
    lemma_fundamental_div_mod_converse(lower, 0x80_0000, exponent, fraction);
}

/// No two patterns stand for the same ratio: `is_ratio` names at most one
/// pattern for a numerator and a scale.
pub proof fn lemma_ratio_unique(a: u32, b: u32, num: int, scale: nat)
    requires
        is_ratio(a, num, scale),
        is_ratio(b, num, scale),
    ensures
        a == b,
{
    lemma_fields_compose(a);
    lemma_fields_compose(b);
    let pa = magnitude_bits(a);
    let pb = magnitude_bits(b);
    lemma_pow2_pos(scale);
    let w = pow2(scale) as int;
    assert(single_size(pa) == single_size(pb)) by (nonlinear_arith)
        requires
            single_size(pa) * w == single_size(pb) * w,
            w > 0,
    ;
    if pa < pb {
        lemma_single_size_increases(pa, pb);
    }
    if pb < pa {
        lemma_single_size_increases(pb, pa);
    }
}

/// The pattern of `sample / 32768`, which single precision holds exactly.
pub fn sample_bits(sample: i16) -> (bits: u32)
    ensures
        is_ratio(bits, sample as int, 15),
{
    if sample == 0 {
        proof {
            lemma_fields_of_sum(0, 0, 0, 0);
            assert(single_size(0) * pow2(15) == 0 * pow2(149)) by (nonlinear_arith)
                requires
                    single_size(0) == 0,
            ;
        }
        return 0;
    }
    let negative = sample < 0;
    let wide: i32 = sample as i32;
    let size: u32 = if negative { (0 - wide) as u32 } else { wide as u32 };
    let mut significand: u32 = size;
    let mut exponent: u32 = 135;
    proof {
        lemma2_to64();
    }
    while significand < 0x80_0000
        invariant
            1 <= size <= 32768,
            1 <= significand < 0x100_0000,
            112 <= exponent <= 135,
            significand * pow2((exponent + 14) as nat) == size * pow2(149),
            significand >= pow2((135 - exponent) as nat),
        decreases exponent,
    {
        proof {
            let done = (135 - exponent) as nat;
            if done >= 23 {
                if done > 23 {
                    lemma_pow2_strictly_increases(23, done);
                }
                lemma2_to64();
                assert(false);
            }
            lemma_pow2_unfold((exponent + 14) as nat);
            lemma_pow2_unfold(done + 1);
            let p = pow2((exponent + 13) as nat);
            assert((significand * 2) * p == significand * (2 * p)) by (nonlinear_arith);
        }
        significand = significand * 2;
        exponent = exponent - 1;
    }
    let sign: u32 = if negative { 0x8000_0000 } else { 0 };
    let bits: u32 = sign + exponent * 0x80_0000 + (significand - 0x80_0000);
    proof {
        lemma_fields_of_sum(
            bits,
            if negative { 1 } else { 0 },
            exponent as int,
            significand - 0x80_0000,
        );
        assert(magnitude(sample as int) == size);
        lemma_pow2_adds((exponent - 1) as nat, 15);
        let w = pow2((exponent - 1) as nat) as int;
        assert(single_size(magnitude_bits(bits)) == significand * w);
        assert((significand * w) * pow2(15) == significand * (w * pow2(15))) by (nonlinear_arith);
    }
    bits
}

} // verus!
