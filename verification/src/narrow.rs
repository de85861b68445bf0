//! Narrowing a double-precision number to single precision.
//!
//! Both are held as bit patterns. A finite double with biased exponent `E`
//! and fraction `m` has the magnitude `m * 2^-1074` when `E` is 0 and
//! `(2^52 + m) * 2^(E - 1075)` otherwise. Narrowing picks the single-precision
//! number nearest to it; of two equally near, the one whose last bit is 0.
//! What lies beyond the largest finite single becomes an infinity.
//!
//! Magnitudes of doubles are counted in units of `2^-1074` and those of
//! singles in units of `2^-149`, so one unit of a single is `2^925` units of a
//! double.

use crate::single::{
    exponent_field, fraction_field, lemma_fields_compose, lemma_fields_of_sum, lemma_next_single,
    lemma_single_size_increases, magnitude_bits, sign_bit, single_size, step, INFINITY,
};
use vstd::arithmetic::div_mod::lemma_fundamental_div_mod_converse;
use vstd::arithmetic::power2::{
    lemma2_to64, lemma2_to64_rest, lemma_pow2_adds, lemma_pow2_pos, lemma_pow2_strictly_increases,
    lemma_pow2_unfold, pow2,
};
use vstd::prelude::*;

verus! {

/// The sign bit of a double: 1 for a negative number.
pub open spec fn double_sign(bits: u64) -> int {
    bits as int / 0x8000_0000_0000_0000
}

/// The biased exponent of a double.
pub open spec fn double_exponent(bits: u64) -> int {
    (bits as int / 0x10_0000_0000_0000) % 0x800
}

/// The fraction bits of a double.
pub open spec fn double_fraction(bits: u64) -> int {
    bits as int % 0x10_0000_0000_0000
}

/// Whether a double is not a number.
pub open spec fn double_is_nan(bits: u64) -> bool {
    double_exponent(bits) == 0x7ff && double_fraction(bits) != 0
}

/// Whether a double is an infinity.
pub open spec fn double_is_infinite(bits: u64) -> bool {
    double_exponent(bits) == 0x7ff && double_fraction(bits) == 0
}

/// The magnitude of a finite double, counted in units of `2^-1074`.
pub open spec fn double_size(bits: u64) -> int {
    if double_exponent(bits) == 0 {
        double_fraction(bits)
    } else {
        (0x10_0000_0000_0000 + double_fraction(bits)) * pow2((double_exponent(bits) - 1) as nat)
    }
}

/// How far the single with the magnitude bits `p` lies from the magnitude
/// `x`, which is counted in units of `2^-1074`; so is the distance.
pub open spec fn distance(p: int, x: int) -> int {
    let at = single_size(p) * pow2(925);
    if at <= x {
        x - at
    } else {
        at - x
    }
}

/// Whether `p` holds the magnitude bits that `x` rounds to: no single up to
/// infinity lies nearer to `x`, and where another lies as near, `p` is even.
pub open spec fn is_nearest(p: int, x: int) -> bool {
    &&& 0 <= p <= INFINITY
    &&& forall|q: int| 0 <= q <= INFINITY ==> distance(p, x) <= #[trigger] distance(q, x)
    &&& forall|q: int|
        0 <= q <= INFINITY && q != p && #[trigger] distance(q, x) == distance(p, x) ==> p % 2
            == 0
}

/// The fraction of a quiet NaN with the payload `payload`: the payload with
/// its leading bit set.
pub open spec fn quieted(payload: int) -> int {
    if payload < 0x40_0000 {
        payload + 0x40_0000
    } else {
        payload
    }
}

/// Whether the single `narrow` is the double `wide` narrowed: the sign is
/// kept, a NaN becomes the quiet NaN with the leading 23 bits of its payload,
/// an infinity stays an infinity, and a finite double goes to the nearest
/// single, ties to even, or to an infinity where it lies beyond the singles.
pub open spec fn narrows_to(wide: u64, narrow: u32) -> bool {
    &&& sign_bit(narrow) == double_sign(wide)
    &&& if double_is_nan(wide) {
        exponent_field(narrow) == 0xff && fraction_field(narrow) == quieted(
            double_fraction(wide) / 0x2000_0000,
        )
    } else if double_is_infinite(wide) {
        magnitude_bits(narrow) == INFINITY
    } else {
        is_nearest(magnitude_bits(narrow), double_size(wide))
    }
}

/// Singles in their order, scaled to the units of a double: a single with
/// smaller magnitude bits lies at least one unit of `2^-149` lower.
proof fn lemma_scaled_order(a: int, b: int)
    requires
        0 <= a < b <= INFINITY,
    ensures
        single_size(a) * pow2(925) + pow2(925) <= single_size(b) * pow2(925),
        pow2(925) > 0,
{
    lemma_single_size_increases(a, b);
    lemma_pow2_pos(925);
    let u = pow2(925) as int;
    let sa = single_size(a);
    let sb = single_size(b);
    assert(sa * u + u <= sb * u) by (nonlinear_arith)
        requires
            sa + 1 <= sb,
            u > 0,
    ;
}

/// The magnitude bits that rounding chooses between `lo` and `lo + 1`, for a
/// magnitude that lies `rem` parts of `unit` above `lo`: the upper one when
/// more than half of the way is gone, and on the half when `lo` is odd.
pub open spec fn rounded(lo: int, rem: int, unit: int) -> int {
    if 2 * rem > unit || (2 * rem == unit && lo % 2 == 1) {
        lo + 1
    } else {
        lo
    }
}

/// A magnitude between a single and the next rounds to the nearer of the two,
/// and from the middle to the even one. Here `x` lies `rem * w` above the
/// single `lo`, and the next single lies `unit * w` above `lo`.
pub proof fn lemma_rounded_is_nearest(lo: int, x: int, rem: int, unit: int, w: int)
    requires
        0 <= lo < INFINITY,
        w > 0,
        0 <= rem < unit,
        x == single_size(lo) * pow2(925) + rem * w,
        step(lo) * pow2(925) == unit * w,
    ensures
        is_nearest(rounded(lo, rem, unit), x),
{
    let u = pow2(925) as int;
    let at_lo = single_size(lo) * u;
    let at_hi = single_size(lo + 1) * u;
    let below = rem * w;
    let above = (unit - rem) * w;
    lemma_next_single(lo);
    assert(at_hi == at_lo + unit * w) by (nonlinear_arith)
        requires
            at_hi == single_size(lo + 1) * u,
            at_lo == single_size(lo) * u,
            single_size(lo + 1) == single_size(lo) + step(lo),
            step(lo) * u == unit * w,
    ;
    assert(below >= 0 && above > 0 && below + above == unit * w) by (nonlinear_arith)
        requires
            below == rem * w,
            above == (unit - rem) * w,
            0 <= rem < unit,
            w > 0,
    ;
    assert(distance(lo, x) == below);
    assert(distance(lo + 1, x) == above);
    assert((2 * rem > unit <==> below > above) && (2 * rem == unit <==> below == above))
        by (nonlinear_arith)
        requires
            below == rem * w,
            above == (unit - rem) * w,
            w > 0,
    ;
    let p = rounded(lo, rem, unit);
    assert forall|q: int| 0 <= q <= INFINITY implies distance(p, x) <= #[trigger] distance(
        q,
        x,
    ) && (q != p && distance(q, x) == distance(p, x) ==> p % 2 == 0) by {
        if q < lo {
            lemma_scaled_order(q, lo);
            assert(distance(q, x) > below);
        } else if q > lo + 1 {
            lemma_scaled_order(lo + 1, q);
            assert(distance(q, x) > above);
        }
    }
}

/// A magnitude at or beyond `2^128` rounds to infinity.
pub proof fn lemma_overflow_is_nearest(x: int)
    requires
        x >= single_size(INFINITY as int) * pow2(925),
    ensures
        is_nearest(INFINITY as int, x),
{
    assert forall|q: int| 0 <= q <= INFINITY implies distance(INFINITY as int, x)
        <= #[trigger] distance(q, x) && (q != INFINITY && distance(q, x) == distance(
        INFINITY as int,
        x,
    ) ==> INFINITY as int % 2 == 0) by {
        if q < INFINITY {
            lemma_scaled_order(q, INFINITY as int);
        }
    }
}

/// The fields of a double put together from a sign, an exponent and a
/// fraction are that sign, exponent and fraction.
pub proof fn lemma_double_fields_of_sum(bits: u64, sign: int, exponent: int, fraction: int)
    requires
        0 <= sign <= 1,
        0 <= exponent < 0x800,
        0 <= fraction < 0x10_0000_0000_0000,
        bits as int == sign * 0x8000_0000_0000_0000 + exponent * 0x10_0000_0000_0000 + fraction,
    ensures
        double_sign(bits) == sign,
        double_exponent(bits) == exponent,
        double_fraction(bits) == fraction,
{
    let b = bits as int;
    let upper = sign * 0x800 + exponent;
    assert(b == upper * 0x10_0000_0000_0000 + fraction) by (nonlinear_arith)
        requires
            b == sign * 0x8000_0000_0000_0000 + exponent * 0x10_0000_0000_0000 + fraction,
            upper == sign * 0x800 + exponent,
    ;
    lemma_fundamental_div_mod_converse(b, 0x10_0000_0000_0000, upper, fraction);
    lemma_fundamental_div_mod_converse(upper, 0x800, sign, exponent);
    let lower = exponent * 0x10_0000_0000_0000 + fraction;
    assert(0 <= lower < 0x8000_0000_0000_0000) by (nonlinear_arith)
        requires
            lower == exponent * 0x10_0000_0000_0000 + fraction,
            0 <= exponent < 0x800,
            0 <= fraction < 0x10_0000_0000_0000,
    ;
    lemma_fundamental_div_mod_converse(b, 0x8000_0000_0000_0000, sign, lower);
}

/// Two to the power of `exponent`.
pub fn power_of_two(exponent: u64) -> (power: u64)
    requires
        exponent < 64,
    ensures
        power == pow2(exponent as nat),
{
    let mut power: u64 = 1;
    let mut done: u64 = 0;
    proof {
        lemma2_to64();
    }
    while done < exponent
        invariant
            done <= exponent < 64,
            power == pow2(done as nat),
        decreases exponent - done,
    {
        proof {
            lemma_pow2_unfold((done + 1) as nat);
            if done + 1 < 63 {
                lemma_pow2_strictly_increases((done + 1) as nat, 63);
            }
            lemma2_to64();
            lemma2_to64_rest();
        }
        power = power * 2;
        done = done + 1;
    }
    power
}

/// Rounds to the magnitude bits `lo` or to the next, for a magnitude that
/// lies `rem` parts of `unit` above `lo`.
fn round(lo: u32, rem: u64, unit: u64) -> (p: u32)
    requires
        lo < INFINITY,
        rem < unit <= 0x40_0000_0000_0000,
    ensures
        p == rounded(lo as int, rem as int, unit as int),
{
    let twice: u64 = 2 * rem;
    if twice > unit || (twice == unit && lo % 2 == 1) {
        lo + 1
    } else {
        lo
    }
}

/// Narrows a double to the nearest single, ties to even. The sign is kept.
/// An infinity stays one, and a finite double of magnitude `2^128` or more
/// becomes one. A NaN becomes a quiet NaN that keeps the leading bits of the
/// payload.
pub fn narrow(wide: u64) -> (bits: u32)
    ensures
        narrows_to(wide, bits),
{
    let negative = wide >= 0x8000_0000_0000_0000;
    let magnitude: u64 = if negative { wide - 0x8000_0000_0000_0000 } else { wide };
    let exponent: u64 = magnitude / 0x10_0000_0000_0000;
    let fraction: u64 = magnitude % 0x10_0000_0000_0000;
    let sign: u32 = if negative { 0x8000_0000 } else { 0 };
    proof {
        lemma_double_fields_of_sum(
            wide,
            if negative { 1 } else { 0 },
            exponent as int,
            fraction as int,
        );
        lemma2_to64();
    }
    let size: u32 = if exponent == 0x7ff {
        if fraction == 0 {
            INFINITY
        } else {
            let payload: u32 = (fraction / 0x2000_0000) as u32;
            let quiet: u32 = if payload < 0x40_0000 { payload + 0x40_0000 } else { payload };
            proof {
                lemma_fields_of_sum(
                    (sign + INFINITY + quiet) as u32,
                    if negative { 1 } else { 0 },
                    0xff,
                    quiet as int,
                );
            }
            INFINITY + quiet
        }
    } else if exponent >= 1151 {
        proof {
            lemma_beyond_singles(exponent as int, fraction as int);
            lemma_overflow_is_nearest(double_size(wide));
        }
        INFINITY
    } else if exponent >= 897 {
        let q: u64 = fraction / 0x2000_0000;
        let rem: u64 = fraction % 0x2000_0000;
        let lo: u32 = ((exponent - 896) * 0x80_0000 + q) as u32;
        proof {
            lemma_normal_bracket(exponent as int, q as int, rem as int);
            lemma_rounded_is_nearest(
                lo as int,
                double_size(wide),
                rem as int,
                0x2000_0000,
                pow2((exponent - 1) as nat) as int,
            );
        }
        round(lo, rem, 0x2000_0000)
    } else {
        let significand: u64 = if exponent == 0 {
            fraction
        } else {
            0x10_0000_0000_0000 + fraction
        };
        let scale: u64 = if exponent == 0 { 0 } else { exponent - 1 };
        let shift: u64 = 925 - scale;
        proof {
            lemma_pow2_adds(shift as nat, scale as nat);
            lemma_pow2_pos(scale as nat);
            lemma_pow2_pos(shift as nat);
        }
        if shift > 54 {
            proof {
                lemma2_to64_rest();
                if shift > 55 {
                    lemma_pow2_strictly_increases(55, shift as nat);
                }
                assert(single_size(0) == 0);
                assert(significand as int * pow2(scale as nat) == 0 * pow2(925) + significand
                    * pow2(scale as nat));
                lemma_rounded_is_nearest(
                    0,
                    double_size(wide),
                    significand as int,
                    pow2(shift as nat) as int,
                    pow2(scale as nat) as int,
                );
            }
            0
        } else {
            let unit: u64 = power_of_two(shift);
            let q: u64 = significand / unit;
            let rem: u64 = significand % unit;
            proof {
                lemma2_to64_rest();
                if shift > 30 {
                    lemma_pow2_strictly_increases(30, shift as nat);
                }
                if shift < 54 {
                    lemma_pow2_strictly_increases(shift as nat, 54);
                }
                lemma_subnormal_bracket(
                    significand as int,
                    unit as int,
                    pow2(scale as nat) as int,
                );
                lemma_rounded_is_nearest(
                    q as int,
                    double_size(wide),
                    rem as int,
                    unit as int,
                    pow2(scale as nat) as int,
                );
            }
            round(q as u32, rem, unit)
        }
    };
    proof {
        lemma_fundamental_div_mod_converse(
            (sign + size) as int,
            0x8000_0000,
            if negative { 1 } else { 0 },
            size as int,
        );
    }
    sign + size
}

/// A finite double with a biased exponent of 1151 or more has a magnitude of
/// at least `2^128`.
proof fn lemma_beyond_singles(exponent: int, fraction: int)
    requires
        1151 <= exponent < 0x7ff,
        0 <= fraction,
    ensures
        (0x10_0000_0000_0000 + fraction) * pow2((exponent - 1) as nat) >= single_size(
            INFINITY as int,
        ) * pow2(925),
{
    lemma2_to64();
    lemma2_to64_rest();
    assert(INFINITY as int / 0x80_0000 == 0xff && INFINITY as int % 0x80_0000 == 0);
    assert(single_size(INFINITY as int) == 0x80_0000 * pow2(254));
    lemma_pow2_adds(23, 254);
    lemma_pow2_adds(277, 925);
    lemma_pow2_adds(52, 1150);
    lemma_pow2_pos(1150);
    if exponent - 1 > 1150 {
        lemma_pow2_strictly_increases(1150, (exponent - 1) as nat);
    }
    let w = pow2((exponent - 1) as nat) as int;
    let w0 = pow2(1150) as int;
    let u = pow2(925) as int;
    let top = pow2(254) as int;
    assert(0x80_0000 * top * u == pow2(1202)) by (nonlinear_arith)
        requires
            0x80_0000 * top == pow2(277),
            pow2(277) * u == pow2(1202),
    ;
    assert((0x10_0000_0000_0000 + fraction) * w >= 0x10_0000_0000_0000 * w0) by (nonlinear_arith)
        requires
            fraction >= 0,
            w >= w0,
            w0 > 0,
    ;
}

/// Where a double of biased exponent 897 to 1150 lies among the normal
/// singles: `rem` parts of `2^29` above the single that keeps the leading 23
/// bits `q` of its fraction.
proof fn lemma_normal_bracket(exponent: int, q: int, rem: int)
    requires
        897 <= exponent <= 1150,
        0 <= q < 0x80_0000,
        0 <= rem < 0x2000_0000,
    ensures
        0 <= (exponent - 896) * 0x80_0000 + q < INFINITY,
        (0x10_0000_0000_0000 + (q * 0x2000_0000 + rem)) * pow2((exponent - 1) as nat)
            == single_size((exponent - 896) * 0x80_0000 + q) * pow2(925) + rem * pow2(
            (exponent - 1) as nat,
        ),
        step((exponent - 896) * 0x80_0000 + q) * pow2(925) == 0x2000_0000 * pow2(
            (exponent - 1) as nat,
        ),
        pow2((exponent - 1) as nat) > 0,
{
    let e = exponent - 896;
    let lo = e * 0x80_0000 + q;
    lemma_fundamental_div_mod_converse(lo, 0x80_0000, e, q);
    let w = pow2((exponent - 1) as nat) as int;
    let v = pow2((e - 1) as nat) as int;
    let u = pow2(925) as int;
    lemma2_to64();
    lemma_pow2_pos((exponent - 1) as nat);
    lemma_pow2_adds((e - 1) as nat, 925);
    lemma_pow2_adds(29, (exponent - 1) as nat);
    assert(v * u == 0x2000_0000 * w);
    assert(single_size(lo) == (0x80_0000 + q) * v);
    assert(step(lo) == v);
    assert((0x10_0000_0000_0000 + (q * 0x2000_0000 + rem)) * w == ((0x80_0000 + q) * v) * u + rem
        * w) by (nonlinear_arith)
        requires
            v * u == 0x2000_0000 * w,
    ;
}

/// Where a double below the normal singles lies among the subnormal ones: a
/// significand of `q * unit + rem`, with `unit * w == 2^925`, lies `rem` parts
/// of `unit` above the single with the magnitude bits `q`.
proof fn lemma_subnormal_bracket(significand: int, unit: int, w: int)
    requires
        0 <= significand < 0x20_0000_0000_0000,
        0x4000_0000 <= unit,
        w > 0,
        unit * w == pow2(925),
    ensures
        0 <= significand / unit < 0x80_0000,
        0 <= significand % unit < unit,
        significand * w == single_size(significand / unit) * pow2(925) + (significand % unit) * w,
        step(significand / unit) * pow2(925) == unit * w,
{
    let q = significand / unit;
    let rem = significand % unit;
    assert(significand == q * unit + rem && 0 <= rem < unit && 0 <= q < 0x80_0000)
        by (nonlinear_arith)
        requires
            q == significand / unit,
            rem == significand % unit,
            0 <= significand < 0x20_0000_0000_0000,
            0x4000_0000 <= unit,
    ;
    assert(q / 0x80_0000 == 0 && q % 0x80_0000 == q) by (nonlinear_arith)
        requires
            0 <= q < 0x80_0000,
    ;
    let u = pow2(925) as int;
    assert(significand * w == q * u + rem * w) by (nonlinear_arith)
        requires
            significand == q * unit + rem,
            unit * w == u,
    ;
}

/// A magnitude that a single holds exactly rounds to that single: narrowing
/// changes no number that single precision can hold.
pub proof fn lemma_exact_is_nearest(p: int)
    requires
        0 <= p <= INFINITY,
    ensures
        is_nearest(p, single_size(p) * pow2(925)),
{
    let x = single_size(p) * pow2(925);
    assert(distance(p, x) == 0);
    assert forall|q: int| 0 <= q <= INFINITY implies distance(p, x) <= #[trigger] distance(q, x)
        && (q != p && distance(q, x) == distance(p, x) ==> p % 2 == 0) by {
        if q < p {
            lemma_scaled_order(q, p);
        }
        if p < q {
            lemma_scaled_order(p, q);
        }
    }
}

/// Rounding leaves no choice: a magnitude rounds to one single only.
pub proof fn lemma_nearest_unique(p: int, q: int, x: int)
    requires
        is_nearest(p, x),
        is_nearest(q, x),
    ensures
        p == q,
{
    if p < q {
        lemma_between_is_nearer(p, q, x);
    }
    if q < p {
        lemma_between_is_nearer(q, p, x);
    }
}

/// Of two different singles at most one is what a magnitude rounds to: were
/// both, they would be equally far from it and both even, and the single
/// after the lower one would lie nearer.
proof fn lemma_between_is_nearer(low: int, high: int, x: int)
    requires
        0 <= low < high <= INFINITY,
    ensures
        !(is_nearest(low, x) && is_nearest(high, x)),
{
    if is_nearest(low, x) && is_nearest(high, x) {
        assert(distance(low, x) <= distance(high, x));
        assert(distance(high, x) <= distance(low, x));
        assert(low % 2 == 0 && high % 2 == 0);
        assert(low + 1 < high);
        lemma_scaled_order(low, low + 1);
        lemma_scaled_order(low + 1, high);
        assert(distance(low, x) <= distance(low + 1, x));
    }
}

/// Narrowing leaves no choice: a double narrows to one single only.
pub proof fn lemma_narrowing_unique(wide: u64, first: u32, second: u32)
    requires
        narrows_to(wide, first),
        narrows_to(wide, second),
    ensures
        first == second,
{
    lemma_fields_compose(first);
    lemma_fields_compose(second);
    let a = first as int;
    let b = second as int;
    assert(a == sign_bit(first) * 0x8000_0000 + a % 0x8000_0000) by (nonlinear_arith)
        requires
            sign_bit(first) == a / 0x8000_0000,
    ;
    assert(b == sign_bit(second) * 0x8000_0000 + b % 0x8000_0000) by (nonlinear_arith)
        requires
            sign_bit(second) == b / 0x8000_0000,
    ;
    if double_is_nan(wide) {
    } else if double_is_infinite(wide) {
    } else {
        lemma_nearest_unique(a % 0x8000_0000, b % 0x8000_0000, double_size(wide));
    }
}

} // verus!
