//! Numbers in the IEEE 754 binary32 format, handled as their 32 bits.
//!
//! The top bit is the sign, the next eight bits are the biased exponent and
//! the low 23 bits are the fraction. Every number of the format is a whole
//! multiple of `2^-149`, so `value` states what a pattern stands for as an
//! integer count of that step, and the order of two numbers is the order of
//! those integers. Patterns with exponent 255 and a fraction other than 0 are
//! no numbers (NaN): they compare with nothing.
use vstd::prelude::*;
use vstd::arithmetic::power2::*;

verus! {

/// The pattern with only the sign bit set.
pub const SIGN: u32 = 0x8000_0000;

/// The pattern of positive infinity: every pattern whose low 31 bits are
/// above it is a NaN.
pub const INFINITY: u32 = 0x7f80_0000;

/// The exponent and fraction bits: the pattern without its sign.
pub open spec fn unsigned(bits: u32) -> int {
    bits as int % 0x8000_0000
}

pub open spec fn is_negative(bits: u32) -> bool {
    bits >= 0x8000_0000
}

/// The biased exponent, from 0 to 255.
pub open spec fn exponent(bits: u32) -> int {
    unsigned(bits) / 0x80_0000
}

/// The 23 fraction bits.
pub open spec fn fraction(bits: u32) -> int {
    unsigned(bits) % 0x80_0000
}

pub open spec fn is_nan(bits: u32) -> bool {
    exponent(bits) == 255 && fraction(bits) != 0
}

/// The absolute value in steps of `2^-149`. An infinity counts as `2^277`
/// steps, above every finite number.
pub open spec fn magnitude(bits: u32) -> int {
    if exponent(bits) == 0 {
        fraction(bits)
    } else {
        (0x80_0000 + fraction(bits)) * pow2((exponent(bits) - 1) as nat)
    }
}

/// The number that a pattern other than a NaN stands for, in steps of
/// `2^-149`.
pub open spec fn value(bits: u32) -> int {
    if is_negative(bits) {
        -magnitude(bits)
    } else {
        magnitude(bits)
    }
}

/// The number 1 in steps of `2^-149`.
pub open spec fn one() -> int {
    pow2(149) as int
}

/// `a < b` as numbers. False when either is a NaN.
pub open spec fn less(a: u32, b: u32) -> bool {
    !is_nan(a) && !is_nan(b) && value(a) < value(b)
}

/// `x` brought into the interval from `lo` to `hi`: `lo` where `x` is below
/// it, `hi` where `x` is above it, otherwise `x` itself, bit for bit. A NaN
/// is below and above nothing, so it stays as it is.
pub open spec fn clamped(x: u32, lo: u32, hi: u32) -> u32 {
    if less(x, lo) {
        lo
    } else if less(hi, x) {
        hi
    } else {
        x
    }
}

/// An integer that orders the patterns as their numbers are ordered.
pub open spec fn order_key(bits: u32) -> int {
    if is_negative(bits) {
        -unsigned(bits)
    } else {
        unsigned(bits)
    }
}

/// Among patterns without sign, a greater pattern is a greater magnitude.
proof fn lemma_magnitude_increases(a: u32, b: u32)
    requires
        unsigned(a) < unsigned(b),
    ensures
        magnitude(a) < magnitude(b),
{
    let ea = exponent(a);
    let eb = exponent(b);
    let fa = fraction(a);
    let fb = fraction(b);
    assert(ea <= eb);
    if ea == eb {
        assert(fa < fb);
        if ea > 0 {
            let p = pow2((ea - 1) as nat) as int;
            lemma_pow2_pos((ea - 1) as nat);
            assert((0x80_0000 + fa) * p < (0x80_0000 + fb) * p) by (nonlinear_arith)
                requires
                    fa < fb,
                    p > 0,
            ;
        }
    } else {
        let q = pow2((eb - 1) as nat) as int;
        lemma_pow2_pos((eb - 1) as nat);
        assert(0x80_0000 * q <= (0x80_0000 + fb) * q) by (nonlinear_arith)
            requires
                fb >= 0,
                q > 0,
        ;
        if ea == 0 {
            assert(0x80_0000 * 1 <= 0x80_0000 * q) by (nonlinear_arith)
                requires
                    q >= 1,
            ;
        } else {
            let p = pow2((ea - 1) as nat) as int;
            lemma_pow2_pos((ea - 1) as nat);
            lemma_pow2_unfold(ea as nat);
            if ea < eb - 1 {
                lemma_pow2_strictly_increases(ea as nat, (eb - 1) as nat);
            }
            assert(2 * p <= q);
            assert((0x80_0000 + fa) * p < 0x80_0000 * (2 * p)) by (nonlinear_arith)
                requires
                    fa < 0x80_0000,
                    p > 0,
            ;
            assert(0x80_0000 * (2 * p) <= 0x80_0000 * q) by (nonlinear_arith)
                requires
                    2 * p <= q,
            ;
        }
    }
}

/// Only the two zeros have magnitude 0.
proof fn lemma_magnitude_zero(a: u32)
    ensures
        magnitude(a) >= 0,
        magnitude(a) == 0 <==> unsigned(a) == 0,
{
    if exponent(a) > 0 {
        let p = pow2((exponent(a) - 1) as nat) as int;
        let f = fraction(a);
        lemma_pow2_pos((exponent(a) - 1) as nat);
        assert((0x80_0000 + f) * p > 0) by (nonlinear_arith)
            requires
                f >= 0,
                p > 0,
        ;
    }
}

/// The key orders all patterns as `value` does.
pub proof fn lemma_order_key(a: u32, b: u32)
    ensures
        value(a) < value(b) <==> order_key(a) < order_key(b),
        value(a) == value(b) <==> order_key(a) == order_key(b),
{
    lemma_magnitude_zero(a);
    lemma_magnitude_zero(b);
    if unsigned(a) < unsigned(b) {
        lemma_magnitude_increases(a, b);
    } else if unsigned(b) < unsigned(a) {
        lemma_magnitude_increases(b, a);
    } else {
        assert(exponent(a) == exponent(b));
        assert(fraction(a) == fraction(b));
    }
}

/// The value of a positive pattern with a biased exponent of at least 1 that
/// stands for the whole number `n`: its 24 leading bits are `n * 2^k`, and
/// its exponent makes up the rest of the 149 binary places.
pub proof fn lemma_normal_value(bits: u32, exponent: nat, fraction: int, n: int, k: nat)
    requires
        1 <= exponent < 255,
        0 <= fraction < 0x80_0000,
        bits == exponent * 0x80_0000 + fraction,
        k + (exponent - 1) == 149,
        0x80_0000 + fraction == n * pow2(k),
    ensures
        !is_nan(bits),
        value(bits) == n * one(),
{
    let e = (exponent - 1) as nat;
    assert(unsigned(bits) == bits);
    assert(self::exponent(bits) == exponent);
    assert(self::fraction(bits) == fraction);
    lemma_pow2_adds(k, e);
    let a = pow2(k) as int;
    let b = pow2(e) as int;
    assert((n * a) * b == n * (a * b)) by (nonlinear_arith);
}

/// Whether the pattern is a NaN.
pub fn is_nan_bits(bits: u32) -> (r: bool)
    ensures
        r == is_nan(bits),
{
    bits % SIGN > INFINITY
}

/// The key by which patterns are ordered as numbers.
fn key_of(bits: u32) -> (k: i64)
    ensures
        k == order_key(bits),
{
    if bits >= SIGN {
        -((bits - SIGN) as i64)
    } else {
        bits as i64
    }
}

/// Whether `a < b` as numbers; false when either is a NaN.
pub fn less_than(a: u32, b: u32) -> (r: bool)
    ensures
        r == less(a, b),
{
    proof {
        lemma_order_key(a, b);
    }
    !is_nan_bits(a) && !is_nan_bits(b) && key_of(a) < key_of(b)
}

/// Brings `x` into the interval from `lo` to `hi`; a NaN stays as it is.
pub fn clamp(x: u32, lo: u32, hi: u32) -> (r: u32)
    requires
        !is_nan(lo),
        !is_nan(hi),
        value(lo) <= value(hi),
    ensures
        r == clamped(x, lo, hi),
{
    if less_than(x, lo) {
        lo
    } else if less_than(hi, x) {
        hi
    } else {
        x
    }
}

/// A clamped number lies in the interval, unless it is a NaN.
pub proof fn lemma_clamped_in_interval(x: u32, lo: u32, hi: u32)
    requires
        !is_nan(lo),
        !is_nan(hi),
        value(lo) <= value(hi),
    ensures
        is_nan(x) ==> clamped(x, lo, hi) == x,
        !is_nan(x) ==> !is_nan(clamped(x, lo, hi)) && value(lo) <= value(clamped(x, lo, hi))
            <= value(hi),
        !is_nan(x) && value(lo) <= value(x) <= value(hi) ==> clamped(x, lo, hi) == x,
{
}

/// Clamping what is already clamped changes nothing.
pub proof fn lemma_clamped_twice(x: u32, lo: u32, hi: u32)
    requires
        !is_nan(lo),
        !is_nan(hi),
        value(lo) <= value(hi),
    ensures
        clamped(clamped(x, lo, hi), lo, hi) == clamped(x, lo, hi),
{
}

} // verus!
