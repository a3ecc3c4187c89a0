//! IEEE-754 double-precision scalar arithmetic on `u64` bit patterns.
//!
//! The four elementary operations and the ordering test are delegated to
//! `rustc_apfloat`, a software implementation of IEEE-754 arithmetic whose
//! results are a function of the operand bits alone; each is a trusted
//! wrapper whose result is named by an uninterpreted spec function. The
//! square root is computed here and verified: a positive double is decomposed
//! into mantissa and exponent, the mantissa's root is taken with the integer
//! square root, and the result is rounded to nearest, ties to even.

use vstd::arithmetic::power2::{lemma_pow2_unfold, pow2};
use vstd::prelude::*;

use rustc_apfloat::Float;

verus! {

/// Result bits of IEEE-754 double-precision addition on the given operand bits.
pub uninterp spec fn spec_add(a: u64, b: u64) -> u64;

/// Result bits of IEEE-754 double-precision subtraction on the given operand bits.
pub uninterp spec fn spec_sub(a: u64, b: u64) -> u64;

/// Result bits of IEEE-754 double-precision multiplication on the given operand bits.
pub uninterp spec fn spec_mul(a: u64, b: u64) -> u64;

/// Result bits of IEEE-754 double-precision division on the given operand bits.
pub uninterp spec fn spec_div(a: u64, b: u64) -> u64;

/// Whether the double encoded by `a` compares greater than the double encoded
/// by `b`; false whenever either operand is a NaN.
pub uninterp spec fn spec_gt(a: u64, b: u64) -> bool;

/// Relies on rustc_apfloat::ieee::Double: `+` is IEEE-754 double-precision
/// addition, rounded to nearest with ties to even, so the result bits are a
/// function of the two operand bit patterns alone.
#[verifier::external_body]
pub(crate) fn add_bits(a: u64, b: u64) -> (r: u64)
    ensures
        r == spec_add(a, b),
{
    let x = rustc_apfloat::ieee::Double::from_bits(a as u128);
    let y = rustc_apfloat::ieee::Double::from_bits(b as u128);
    (x + y).value.to_bits() as u64
}

/// Relies on rustc_apfloat::ieee::Double: `-` is IEEE-754 double-precision
/// subtraction, rounded to nearest with ties to even, so the result bits are
/// a function of the two operand bit patterns alone.
#[verifier::external_body]
pub(crate) fn sub_bits(a: u64, b: u64) -> (r: u64)
    ensures
        r == spec_sub(a, b),
{
    let x = rustc_apfloat::ieee::Double::from_bits(a as u128);
    let y = rustc_apfloat::ieee::Double::from_bits(b as u128);
    (x - y).value.to_bits() as u64
}

/// Relies on rustc_apfloat::ieee::Double: `*` is IEEE-754 double-precision
/// multiplication, rounded to nearest with ties to even, so the result bits
/// are a function of the two operand bit patterns alone.
#[verifier::external_body]
pub(crate) fn mul_bits(a: u64, b: u64) -> (r: u64)
    ensures
        r == spec_mul(a, b),
{
    let x = rustc_apfloat::ieee::Double::from_bits(a as u128);
    let y = rustc_apfloat::ieee::Double::from_bits(b as u128);
    (x * y).value.to_bits() as u64
}

/// Relies on rustc_apfloat::ieee::Double: `/` is IEEE-754 double-precision
/// division, rounded to nearest with ties to even, so the result bits are a
/// function of the two operand bit patterns alone.
#[verifier::external_body]
pub(crate) fn div_bits(a: u64, b: u64) -> (r: u64)
    ensures
        r == spec_div(a, b),
{
    let x = rustc_apfloat::ieee::Double::from_bits(a as u128);
    let y = rustc_apfloat::ieee::Double::from_bits(b as u128);
    (x / y).value.to_bits() as u64
}

/// Relies on rustc_apfloat::ieee::Double: its PartialOrd is the IEEE-754
/// comparison predicate, under which every comparison with a NaN is false,
/// and a function of the two operand bit patterns alone.
#[verifier::external_body]
pub(crate) fn gt_bits(a: u64, b: u64) -> (r: bool)
    ensures
        r == spec_gt(a, b),
{
    let x = rustc_apfloat::ieee::Double::from_bits(a as u128);
    let y = rustc_apfloat::ieee::Double::from_bits(b as u128);
    x > y
}

/// Relies on u128::isqrt: the largest integer whose square does not exceed
/// the argument, as std documents.
#[verifier::external_body]
fn isqrt_u128(n: u128) -> (r: u128)
    ensures
        r * r <= n,
        n < (r + 1) * (r + 1),
{
    n.isqrt()
}

/// The quiet NaN that a square root of an invalid operand returns.
pub const QNAN: u64 = 0x7FF8_0000_0000_0000;

/// 2^52, the weight of a double's hidden mantissa bit.
pub const HIDDEN_BIT: u64 = 0x10_0000_0000_0000;

/// The integer square root of `n`, rounded toward zero.
pub open spec fn floor_sqrt(n: int) -> int {
    choose|s: int| 0 <= s && #[trigger] (s * s) <= n && n < (s + 1) * (s + 1)
}

/// A witness pins the integer square root down: any `s` whose square
/// brackets `n` is the floor square root of `n`.
pub proof fn lemma_floor_sqrt(n: int, s: int)
    requires
        0 <= s,
        s * s <= n,
        n < (s + 1) * (s + 1),
    ensures
        floor_sqrt(n) == s,
{
    assert(exists|t: int| 0 <= t && #[trigger] (t * t) <= n && n < (t + 1) * (t + 1)) by {
        assert(0 <= s && s * s <= n && n < (s + 1) * (s + 1));
    }
    let t = floor_sqrt(n);
    assert(0 <= t && t * t <= n && n < (t + 1) * (t + 1));
    assert(t == s) by (nonlinear_arith)
        requires
            0 <= s,
            s * s <= n,
            n < (s + 1) * (s + 1),
            0 <= t,
            t * t <= n,
            n < (t + 1) * (t + 1),
    ;
}

/// Doubles `m` (halving the exponent offset `ee`) until the hidden bit is
/// set, for at most `k` steps: the mantissa normalization of a subnormal.
pub open spec fn normalize(m: int, ee: int, k: nat) -> (int, int)
    decreases k,
{
    if k == 0 || m >= HIDDEN_BIT {
        (m, ee)
    } else {
        normalize(m * 2, ee - 1, (k - 1) as nat)
    }
}

/// The rounded square root of the positive value m0 * 2^(ee0 - 2000), where
/// ee0 carries the binary exponent offset by 2000: first the mantissa is
/// normalized into [2^52, 2^53) and the exponent made even, then the mantissa
/// is widened by 2^56 so that the integer square root carries two guard bits,
/// and the result is rounded to nearest, ties to even.
pub open spec fn spec_sqrt_pos(m0: int, ee0: int) -> u64 {
    let n = normalize(m0, ee0, 52);
    let m = if n.1 % 2 != 0 {
        n.0 * 2
    } else {
        n.0
    };
    let ee = if n.1 % 2 != 0 {
        n.1 - 1
    } else {
        n.1
    };
    let sq = m * 0x100_0000_0000_0000;
    let s = floor_sqrt(sq);
    let q0 = s / 4;
    let g = (s / 2) % 2;
    let sticky = s % 2 != 0 || s * s != sq;
    let q = if g == 1 && (sticky || q0 % 2 == 1) {
        q0 + 1
    } else {
        q0
    };
    if q == 0x20_0000_0000_0000 {
        (((ee / 2 + 50) * 0x10_0000_0000_0000) as u64)
    } else {
        (((ee / 2 + 49) * 0x10_0000_0000_0000 + (q - 0x10_0000_0000_0000)) as u64)
    }
}

/// Result bits of the IEEE-754 double-precision square root of the double
/// encoded by `a`: NaN for a NaN or a negative nonzero operand, the operand
/// itself for a zero or positive infinity, and the correctly rounded root of
/// a positive finite operand.
pub open spec fn spec_sqrt(a: u64) -> u64 {
    let sign = a / 0x8000_0000_0000_0000;
    let be = (a / 0x10_0000_0000_0000) % 0x800;
    let frac = a % 0x10_0000_0000_0000;
    if be == 0x7FF && frac != 0 {
        QNAN
    } else if be == 0x7FF && sign == 0 {
        a
    } else if be == 0x7FF {
        QNAN
    } else if be == 0 && frac == 0 {
        a
    } else if sign == 1 {
        QNAN
    } else if be > 0 {
        spec_sqrt_pos(frac + HIDDEN_BIT, be + 925)
    } else {
        spec_sqrt_pos(frac as int, 926)
    }
}

/// The IEEE-754 double-precision square root on bit patterns, rounded to
/// nearest with ties to even.
pub fn sqrt_bits(a: u64) -> (r: u64)
    ensures
        r == spec_sqrt(a),
{
    let sign = a / 0x8000_0000_0000_0000;
    let be = (a / 0x10_0000_0000_0000) % 0x800;
    let frac = a % 0x10_0000_0000_0000;
    if be == 0x7FF {
        if frac != 0 {
            return QNAN;
        }
        if sign == 0 {
            return a;
        }
        return QNAN;
    }
    if be == 0 && frac == 0 {
        return a;
    }
    if sign == 1 {
        return QNAN;
    }
    let mut m: u64;
    let mut ee: u64;
    if be > 0 {
        m = frac + HIDDEN_BIT;
        ee = be + 925;
    } else {
        m = frac;
        ee = 926;
    }
    let ghost m0 = m as int;
    let ghost ee0 = ee as int;
    let ghost mut k: nat = 52;
    proof {
        vstd::arithmetic::power2::lemma2_to64();
        vstd::arithmetic::power2::lemma2_to64_rest();
        assert(m * pow2(52) >= HIDDEN_BIT) by (nonlinear_arith)
            requires
                m >= 1,
                pow2(52) == 0x10_0000_0000_0000,
        ;
    }
    while m < HIDDEN_BIT
        invariant
            1 <= m < 0x20_0000_0000_0000,
            k <= 52,
            ee as int == ee0 - 52 + k,
            926 <= ee0 <= 2971,
            m * pow2(k) >= HIDDEN_BIT,
            normalize(m as int, ee as int, k) == normalize(m0, ee0, 52),
        decreases 0x20_0000_0000_0000 - m,
    {
        proof {
            if k == 0 {
                assert(pow2(0) == 1) by {
                    vstd::arithmetic::power2::lemma2_to64();
                }
                assert(m >= HIDDEN_BIT) by (nonlinear_arith)
                    requires
                        m * pow2(k) >= HIDDEN_BIT,
                        pow2(k) == 1,
                ;
                assert(false);
            }
            lemma_pow2_unfold(k);
            assert((m * 2) * pow2((k - 1) as nat) == m * pow2(k)) by (nonlinear_arith)
                requires
                    pow2(k) == 2 * pow2((k - 1) as nat),
            ;
            k = (k - 1) as nat;
        }
        m = m * 2;
        ee = ee - 1;
    }
    proof {
        assert(normalize(m as int, ee as int, k) == (m as int, ee as int));
    }
    if ee % 2 != 0 {
        m = m * 2;
        ee = ee - 1;
    }
    let ghost mm = m as int;
    let sq: u128 = (m as u128) * 0x100_0000_0000_0000;
    let s: u128 = isqrt_u128(sq);
    proof {
        lemma_floor_sqrt(sq as int, s as int);
        assert(sq >= 0x1000_0000_0000_0000_0000_0000_0000) by (nonlinear_arith)
            requires
                sq == mm * 0x100_0000_0000_0000,
                mm >= 0x10_0000_0000_0000,
        ;
        assert(sq < 0x4000_0000_0000_0000_0000_0000_0000) by (nonlinear_arith)
            requires
                sq == mm * 0x100_0000_0000_0000,
                mm < 0x40_0000_0000_0000,
        ;
        assert(s < 0x80_0000_0000_0000) by (nonlinear_arith)
            requires
                s * s <= sq,
                sq < 0x4000_0000_0000_0000_0000_0000_0000,
        ;
        assert(s >= 0x40_0000_0000_0000) by (nonlinear_arith)
            requires
                sq < (s + 1) * (s + 1),
                sq >= 0x1000_0000_0000_0000_0000_0000_0000,
        ;
    }
    let q0: u64 = (s / 4) as u64;
    let g: u64 = ((s / 2) % 2) as u64;
    let low: u64 = (s % 2) as u64;
    proof {
        assert(s * s < 0x4000_0000_0000_0000_0000_0000_0000) by (nonlinear_arith)
            requires
                s < 0x80_0000_0000_0000,
        ;
    }
    let exact: bool = s * s == sq;
    let sticky: bool = low != 0 || !exact;
    let q: u64 = if g == 1 && (sticky || q0 % 2 == 1) {
        q0 + 1
    } else {
        q0
    };
    let er: u64;
    let fbits: u64;
    if q == 0x20_0000_0000_0000 {
        er = ee / 2 + 50;
        fbits = 0;
    } else {
        er = ee / 2 + 49;
        fbits = q - HIDDEN_BIT;
    }
    er * HIDDEN_BIT + fbits
}

} // verus!
