//! Integer arithmetic on IEEE 754 bit patterns.
//!
//! The engine stores 32- and 64-bit floating-point scalars as their bit
//! encodings (`u32`, `u64`). A finite encoding with sign bit `s`, exponent
//! field `e` and fraction field `f` denotes the number
//! `(-1)^s * M * 2^(E - (bias + frac_bits))`, where `M = 2^frac_bits + f` and
//! `E = e` for normal numbers (`e >= 1`) and `M = f`, `E = 1` for subnormals.
//! Everything the engine needs of such numbers — ordering, the nearest
//! integer — is defined and computed on these fields alone.

use vstd::prelude::*;
use vstd::arithmetic::power2::{pow2, lemma2_to64, lemma2_to64_rest, lemma_pow2_adds,
    lemma_pow2_strictly_increases, lemma_pow2_pos};
use vstd::arithmetic::div_mod::{lemma_basic_div, lemma_fundamental_div_mod};
use vstd::arithmetic::mul::{lemma_mul_inequality, lemma_mul_is_commutative};

verus! {

// --- Field extraction, 64-bit encoding ---

/// The sign bit of a 64-bit encoding.
pub open spec fn f64_sign(b: u64) -> bool {
    b as int / 0x8000_0000_0000_0000 == 1
}

/// The encoding with the sign bit cleared: its magnitude bits.
pub open spec fn f64_mag_bits(b: u64) -> int {
    b as int % 0x8000_0000_0000_0000
}

/// The 11-bit exponent field.
pub open spec fn f64_exp(b: u64) -> int {
    (b as int / 0x10_0000_0000_0000) % 0x800
}

/// The 52-bit fraction field.
pub open spec fn f64_frac(b: u64) -> int {
    b as int % 0x10_0000_0000_0000
}

/// NaN: exponent field all ones with a nonzero fraction.
pub open spec fn f64_is_nan(b: u64) -> bool {
    f64_exp(b) == 0x7FF && f64_frac(b) != 0
}

/// A comparison key: for non-NaN encodings, the order of
/// `(-1)^sign * magnitude_bits` is exactly the order of the numbers the
/// encodings denote, and it sends both zeros to 0.
pub open spec fn f64_key(b: u64) -> int {
    if f64_sign(b) {
        -f64_mag_bits(b)
    } else {
        f64_mag_bits(b)
    }
}

/// The integer significand `M` of the denoted number.
pub open spec fn f64_sig(b: u64) -> int {
    if f64_exp(b) == 0 {
        f64_frac(b)
    } else {
        f64_frac(b) + 0x10_0000_0000_0000
    }
}

/// The effective exponent field `E` (subnormals share the smallest one).
pub open spec fn f64_eff_exp(b: u64) -> int {
    if f64_exp(b) == 0 {
        1
    } else {
        f64_exp(b)
    }
}

/// The magnitude of the denoted number, `M * 2^(E - 1075)`, taken to an
/// integer: rounded half away from zero when `round_half`, else truncated
/// toward zero.
pub open spec fn f64_int_mag(b: u64, round_half: bool) -> int {
    let m = f64_sig(b);
    let e = f64_eff_exp(b);
    if e >= 1075 {
        m * pow2((e - 1075) as nat)
    } else {
        let k = (1075 - e) as nat;
        let q = m / (pow2(k) as int);
        let r = m % (pow2(k) as int);
        if round_half && 2 * r >= pow2(k) {
            q + 1
        } else {
            q
        }
    }
}

/// What converting the denoted number to an integer type with range
/// `[lo, hi]` yields: 0 for NaN, otherwise the rounded (or truncated)
/// value clamped into the range. Infinities clamp to the nearest bound.
pub open spec fn f64_to_int_clamped(b: u64, lo: int, hi: int, round_half: bool) -> int {
    if f64_is_nan(b) {
        0
    } else {
        let v = if f64_sign(b) {
            -f64_int_mag(b, round_half)
        } else {
            f64_int_mag(b, round_half)
        };
        if v < lo {
            lo
        } else if v > hi {
            hi
        } else {
            v
        }
    }
}

// --- Field extraction, 32-bit encoding ---

/// The sign bit of a 32-bit encoding.
pub open spec fn f32_sign(b: u32) -> bool {
    b as int / 0x8000_0000 == 1
}

/// The encoding with the sign bit cleared.
pub open spec fn f32_mag_bits(b: u32) -> int {
    b as int % 0x8000_0000
}

/// The 8-bit exponent field.
pub open spec fn f32_exp(b: u32) -> int {
    (b as int / 0x80_0000) % 0x100
}

/// The 23-bit fraction field.
pub open spec fn f32_frac(b: u32) -> int {
    b as int % 0x80_0000
}

/// NaN: exponent field all ones with a nonzero fraction.
pub open spec fn f32_is_nan(b: u32) -> bool {
    f32_exp(b) == 0xFF && f32_frac(b) != 0
}

/// The 32-bit comparison key; see `f64_key`.
pub open spec fn f32_key(b: u32) -> int {
    if f32_sign(b) {
        -f32_mag_bits(b)
    } else {
        f32_mag_bits(b)
    }
}

/// The integer significand `M` of the denoted number.
pub open spec fn f32_sig(b: u32) -> int {
    if f32_exp(b) == 0 {
        f32_frac(b)
    } else {
        f32_frac(b) + 0x80_0000
    }
}

/// The effective exponent field `E`.
pub open spec fn f32_eff_exp(b: u32) -> int {
    if f32_exp(b) == 0 {
        1
    } else {
        f32_exp(b)
    }
}

/// The magnitude of the denoted number, `M * 2^(E - 150)`, taken to an
/// integer; see `f64_int_mag`.
pub open spec fn f32_int_mag(b: u32, round_half: bool) -> int {
    let m = f32_sig(b);
    let e = f32_eff_exp(b);
    if e >= 150 {
        m * pow2((e - 150) as nat)
    } else {
        let k = (150 - e) as nat;
        let q = m / (pow2(k) as int);
        let r = m % (pow2(k) as int);
        if round_half && 2 * r >= pow2(k) {
            q + 1
        } else {
            q
        }
    }
}

/// See `f64_to_int_clamped`.
pub open spec fn f32_to_int_clamped(b: u32, lo: int, hi: int, round_half: bool) -> int {
    if f32_is_nan(b) {
        0
    } else {
        let v = if f32_sign(b) {
            -f32_int_mag(b, round_half)
        } else {
            f32_int_mag(b, round_half)
        };
        if v < lo {
            lo
        } else if v > hi {
            hi
        } else {
            v
        }
    }
}

// --- Executable counterparts ---

/// Computes `pow2(k)` for `k <= 63`.
pub fn pow2_u64(k: u64) -> (p: u64)
    requires
        k <= 63,
    ensures
        p as int == pow2(k as nat),
{
    proof {
        lemma2_to64();
        lemma2_to64_rest();
    }
    let mut p: u64 = 1;
    let mut j: u64 = 0;
    while j < k
        invariant
            j <= k <= 63,
            p as int == pow2(j as nat),
        decreases k - j,
    {
        proof {
            lemma_pow2_strictly_increases(j as nat, 63);
            lemma2_to64();
            lemma2_to64_rest();
            lemma_pow2_adds(j as nat, 1);
        }
        p = p * 2;
        j = j + 1;
    }
    p
}

/// Decides whether a 64-bit encoding is NaN.
pub fn f64_nan_check(b: u64) -> (r: bool)
    ensures
        r == f64_is_nan(b),
{
    let e: u64 = (b / 0x10_0000_0000_0000) % 0x800;
    let f: u64 = b % 0x10_0000_0000_0000;
    e == 0x7FF && f != 0
}

/// Decides whether a 32-bit encoding is NaN.
pub fn f32_nan_check(b: u32) -> (r: bool)
    ensures
        r == f32_is_nan(b),
{
    let e: u32 = (b / 0x80_0000) % 0x100;
    let f: u32 = b % 0x80_0000;
    e == 0xFF && f != 0
}

/// Computes the comparison key of a 64-bit encoding.
pub fn f64_key_exec(b: u64) -> (k: i128)
    ensures
        k as int == f64_key(b),
{
    let mag: u64 = b % 0x8000_0000_0000_0000;
    if b / 0x8000_0000_0000_0000 == 1 {
        -(mag as i128)
    } else {
        mag as i128
    }
}

/// Computes the comparison key of a 32-bit encoding.
pub fn f32_key_exec(b: u32) -> (k: i64)
    ensures
        k as int == f32_key(b),
{
    let mag: u32 = b % 0x8000_0000;
    if b / 0x8000_0000 == 1 {
        -(mag as i64)
    } else {
        mag as i64
    }
}

/// Computes `f64_int_mag(b, round_half)` when it fits in a `u64`;
/// `None` means the magnitude is at least `2^64`.
pub fn f64_int_mag_exec(b: u64, round_half: bool) -> (r: Option<u64>)
    ensures
        r matches Some(m) ==> m as int == f64_int_mag(b, round_half),
        r is None ==> f64_int_mag(b, round_half) >= 0x1_0000_0000_0000_0000,
{
    proof {
        lemma2_to64();
        lemma2_to64_rest();
    }
    let e_field: u64 = (b / 0x10_0000_0000_0000) % 0x800;
    let frac: u64 = b % 0x10_0000_0000_0000;
    let m: u64 = if e_field == 0 { frac } else { frac + 0x10_0000_0000_0000 };
    let e: u64 = if e_field == 0 { 1 } else { e_field };
    assert(m as int == f64_sig(b));
    assert(e as int == f64_eff_exp(b));
    assert(m < 0x20_0000_0000_0000);
    if e >= 1075 {
        let sh: u64 = e - 1075;
        if sh >= 12 {
            proof {
                if sh > 12 {
                    lemma_pow2_strictly_increases(12, sh as nat);
                }
                assert(f64_exp(b) != 0);
                assert(m >= 0x10_0000_0000_0000);
                assert(m * pow2(sh as nat) >= 0x10_0000_0000_0000 * 0x1000)
                    by (nonlinear_arith)
                    requires
                        m >= 0x10_0000_0000_0000,
                        pow2(sh as nat) >= 0x1000,
                {}
            }
            None
        } else {
            let p: u64 = pow2_u64(sh);
            proof {
                if sh < 11 {
                    lemma_pow2_strictly_increases(sh as nat, 11);
                }
                assert(m * p <= 0x1F_FFFF_FFFF_FFFF * 0x800) by (nonlinear_arith)
                    requires
                        m <= 0x1F_FFFF_FFFF_FFFF,
                        p <= 0x800,
                        m >= 0,
                        p >= 0,
                {}
            }
            Some(m * p)
        }
    } else {
        let k: u64 = 1075 - e;
        if k >= 54 {
            proof {
                if k > 54 {
                    lemma_pow2_strictly_increases(54, k as nat);
                }
                lemma_basic_div(m as int, pow2(k as nat) as int);
                assert(m as int % (pow2(k as nat) as int) == m as int) by {
                    vstd::arithmetic::div_mod::lemma_small_mod(m as nat, pow2(k as nat));
                };
            }
            Some(0)
        } else {
            let p: u64 = pow2_u64(k);
            proof {
                lemma_pow2_pos(k as nat);
                if k < 53 {
                    lemma_pow2_strictly_increases(k as nat, 53);
                }
            }
            let q: u64 = m / p;
            let r: u64 = m % p;
            if round_half && 2 * r >= p {
                Some(q + 1)
            } else {
                Some(q)
            }
        }
    }
}

/// Computes `f32_int_mag(b, round_half)` when it fits in a `u64`;
/// `None` means the magnitude is at least `2^64`.
pub fn f32_int_mag_exec(b: u32, round_half: bool) -> (r: Option<u64>)
    ensures
        r matches Some(m) ==> m as int == f32_int_mag(b, round_half),
        r is None ==> f32_int_mag(b, round_half) >= 0x1_0000_0000_0000_0000,
{
    proof {
        lemma2_to64();
        lemma2_to64_rest();
    }
    let e_field: u32 = (b / 0x80_0000) % 0x100;
    let frac: u32 = b % 0x80_0000;
    let m: u64 = if e_field == 0 { frac as u64 } else { frac as u64 + 0x80_0000 };
    let e: u32 = if e_field == 0 { 1 } else { e_field };
    assert(m as int == f32_sig(b));
    assert(e as int == f32_eff_exp(b));
    assert(m < 0x100_0000);
    if e >= 150 {
        let sh: u32 = e - 150;
        if sh >= 41 {
            proof {
                if sh > 41 {
                    lemma_pow2_strictly_increases(41, sh as nat);
                }
                assert(f32_exp(b) != 0);
                assert(m >= 0x80_0000);
                assert(m * pow2(sh as nat) >= 0x80_0000 * 0x200_0000_0000)
                    by (nonlinear_arith)
                    requires
                        m >= 0x80_0000,
                        pow2(sh as nat) >= 0x200_0000_0000,
                {}
            }
            None
        } else {
            let p: u64 = pow2_u64(sh as u64);
            proof {
                if sh < 40 {
                    lemma_pow2_strictly_increases(sh as nat, 40);
                }
                assert(m * p <= 0xFF_FFFF * 0x100_0000_0000) by (nonlinear_arith)
                    requires
                        m <= 0xFF_FFFF,
                        p <= 0x100_0000_0000,
                        m >= 0,
                        p >= 0,
                {}
            }
            Some(m * p)
        }
    } else {
        let k: u32 = 150 - e;
        if k >= 25 {
            proof {
                if k > 25 {
                    lemma_pow2_strictly_increases(25, k as nat);
                }
                lemma_basic_div(m as int, pow2(k as nat) as int);
                assert(m as int % (pow2(k as nat) as int) == m as int) by {
                    vstd::arithmetic::div_mod::lemma_small_mod(m as nat, pow2(k as nat));
                };
            }
            Some(0)
        } else {
            let p: u64 = pow2_u64(k as u64);
            proof {
                lemma_pow2_pos(k as nat);
                if k < 24 {
                    lemma_pow2_strictly_increases(k as nat, 24);
                }
            }
            let q: u64 = m / p;
            let r: u64 = m % p;
            if round_half && 2 * r >= p {
                Some(q + 1)
            } else {
                Some(q)
            }
        }
    }
}

/// Converts a 64-bit encoding to an integer in `[lo, hi]`; see
/// `f64_to_int_clamped`.
pub fn f64_to_int_clamped_exec(b: u64, lo: i128, hi: i128, round_half: bool) -> (v: i128)
    requires
        -0x1_0000_0000_0000_0000 < lo <= hi < 0x1_0000_0000_0000_0000,
        lo <= 0 <= hi,
    ensures
        v as int == f64_to_int_clamped(b, lo as int, hi as int, round_half),
{
    if f64_nan_check(b) {
        return 0;
    }
    let neg: bool = b / 0x8000_0000_0000_0000 == 1;
    match f64_int_mag_exec(b, round_half) {
        None => if neg { lo } else { hi },
        Some(m) => {
            let v: i128 = if neg { -(m as i128) } else { m as i128 };
            if v < lo {
                lo
            } else if v > hi {
                hi
            } else {
                v
            }
        },
    }
}

/// Converts a 32-bit encoding to an integer in `[lo, hi]`; see
/// `f32_to_int_clamped`.
pub fn f32_to_int_clamped_exec(b: u32, lo: i128, hi: i128, round_half: bool) -> (v: i128)
    requires
        -0x1_0000_0000_0000_0000 < lo <= hi < 0x1_0000_0000_0000_0000,
        lo <= 0 <= hi,
    ensures
        v as int == f32_to_int_clamped(b, lo as int, hi as int, round_half),
{
    if f32_nan_check(b) {
        return 0;
    }
    let neg: bool = b / 0x8000_0000 == 1;
    match f32_int_mag_exec(b, round_half) {
        None => if neg { lo } else { hi },
        Some(m) => {
            let v: i128 = if neg { -(m as i128) } else { m as i128 };
            if v < lo {
                lo
            } else if v > hi {
                hi
            } else {
                v
            }
        },
    }
}

} // verus!
