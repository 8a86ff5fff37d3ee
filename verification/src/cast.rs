//! The casting engine: conversion between values of the supported primitive
//! types.
//!
//! Semantics, per source family:
//! - boolean to numeric: `true` is 1, `false` is 0; boolean to text: the
//!   words `true` and `false`;
//! - integer to integer: two's-complement wrap to the target width;
//! - integer to text: canonical decimal;
//! - float to integer: round half away from zero, then clamp to the target's
//!   range (NaN gives 0);
//! - any numeric to boolean: nonzero is `true`;
//! - text to number: best-effort parse, any failure or out-of-range value
//!   degrading to zero; text to boolean: spelling `true` in any letter case;
//! - a type to itself: identity.
//!
//! Conversions that would require floating-point arithmetic (producing a new
//! float from an integer, another float width, or text, and rendering a float
//! as text) cannot stand in this verified core and report `UnsupportedType`.

use vstd::prelude::*;
use vstd::arithmetic::power2::{pow2, lemma2_to64, lemma2_to64_rest, lemma_pow2_adds,
    lemma_pow2_pos};
use vstd::arithmetic::div_mod::{lemma_mod_mod, lemma_mod_multiples_vanish, lemma_small_mod};
use crate::errors::EngineError;
use crate::value::{ArrowValue, ConcreteType, ValView};
use crate::floats::{f32_mag_bits, f32_to_int_clamped, f32_to_int_clamped_exec, f64_mag_bits,
    f64_to_int_clamped, f64_to_int_clamped_exec};
use crate::numtext::{dec_int, fmt_i128, is_true_literal, parse_bool, parse_clamped,
    parse_in_range};

verus! {

/// `v` reduced to an unsigned machine word of `w` bits: `v mod 2^w`.
pub open spec fn wrap_u(v: int, w: nat) -> int {
    v % (pow2(w) as int)
}

/// `v` reduced to a two's-complement word of `w` bits.
pub open spec fn wrap_i(v: int, w: nat) -> int
    recommends
        w >= 1,
{
    let m = v % (pow2(w) as int);
    if m >= pow2((w - 1) as nat) {
        m - pow2(w)
    } else {
        m
    }
}

/// Whether the cast of a value of content `v` to `t` is defined in this core.
pub open spec fn cast_ok(v: ValView, t: ConcreteType) -> bool {
    match v {
        ValView::VBool(_) => true,
        ValView::VF32(_) => t != ConcreteType::Utf8 && t != ConcreteType::Float64,
        ValView::VF64(_) => t != ConcreteType::Utf8 && t != ConcreteType::Float32,
        ValView::VStr(_) => t != ConcreteType::Float32 && t != ConcreteType::Float64,
        _ => t != ConcreteType::Float32 && t != ConcreteType::Float64,
    }
}

/// The cast of the integer value `x` to `t` (a target the integer family
/// supports).
pub open spec fn int_cast_v(x: int, t: ConcreteType) -> ValView
    recommends
        t != ConcreteType::Float32 && t != ConcreteType::Float64,
{
    match t {
        ConcreteType::Boolean => ValView::VBool(x != 0),
        ConcreteType::Int8 => ValView::VI8(wrap_i(x, 8) as i8),
        ConcreteType::Int16 => ValView::VI16(wrap_i(x, 16) as i16),
        ConcreteType::Int32 => ValView::VI32(wrap_i(x, 32) as i32),
        ConcreteType::Int64 => ValView::VI64(wrap_i(x, 64) as i64),
        ConcreteType::UInt8 => ValView::VU8(wrap_u(x, 8) as u8),
        ConcreteType::UInt16 => ValView::VU16(wrap_u(x, 16) as u16),
        ConcreteType::UInt32 => ValView::VU32(wrap_u(x, 32) as u32),
        ConcreteType::UInt64 => ValView::VU64(wrap_u(x, 64) as u64),
        _ => ValView::VStr(dec_int(x)),
    }
}

/// The cast of the boolean `b` to `t`: the words `true` and `false` for
/// text, the float encodings of 1 and 0 for the floats, and the integer
/// reading for everything else.
pub open spec fn bool_cast_v(b: bool, t: ConcreteType) -> ValView {
    match t {
        ConcreteType::Utf8 => ValView::VStr(
            if b {
                "true"@
            } else {
                "false"@
            },
        ),
        ConcreteType::Float32 => ValView::VF32(
            if b {
                0x3F80_0000u32
            } else {
                0u32
            },
        ),
        ConcreteType::Float64 => ValView::VF64(
            if b {
                0x3FF0_0000_0000_0000u64
            } else {
                0u64
            },
        ),
        _ => int_cast_v(
            if b {
                1
            } else {
                0
            },
            t,
        ),
    }
}

/// The cast of the 64-bit float encoding `bits` to `t` (a target the double
/// family supports).
pub open spec fn f64_cast_v(bits: u64, t: ConcreteType) -> ValView
    recommends
        t != ConcreteType::Float32 && t != ConcreteType::Utf8,
{
    match t {
        ConcreteType::Boolean => ValView::VBool(f64_mag_bits(bits) != 0),
        ConcreteType::Int8 => ValView::VI8(f64_to_int_clamped(bits, -128, 127, true) as i8),
        ConcreteType::Int16 => ValView::VI16(f64_to_int_clamped(bits, -32768, 32767, true) as i16),
        ConcreteType::Int32 => ValView::VI32(
            f64_to_int_clamped(bits, -2147483648, 2147483647, true) as i32,
        ),
        ConcreteType::Int64 => ValView::VI64(
            f64_to_int_clamped(bits, -9223372036854775808, 9223372036854775807, true) as i64,
        ),
        ConcreteType::UInt8 => ValView::VU8(f64_to_int_clamped(bits, 0, 255, true) as u8),
        ConcreteType::UInt16 => ValView::VU16(f64_to_int_clamped(bits, 0, 65535, true) as u16),
        ConcreteType::UInt32 => ValView::VU32(
            f64_to_int_clamped(bits, 0, 4294967295, true) as u32,
        ),
        ConcreteType::UInt64 => ValView::VU64(
            f64_to_int_clamped(bits, 0, 18446744073709551615, true) as u64,
        ),
        _ => ValView::VF64(bits),
    }
}

/// The cast of the 32-bit float encoding `bits` to `t` (a target the float
/// family supports).
pub open spec fn f32_cast_v(bits: u32, t: ConcreteType) -> ValView
    recommends
        t != ConcreteType::Float64 && t != ConcreteType::Utf8,
{
    match t {
        ConcreteType::Boolean => ValView::VBool(f32_mag_bits(bits) != 0),
        ConcreteType::Int8 => ValView::VI8(f32_to_int_clamped(bits, -128, 127, true) as i8),
        ConcreteType::Int16 => ValView::VI16(f32_to_int_clamped(bits, -32768, 32767, true) as i16),
        ConcreteType::Int32 => ValView::VI32(
            f32_to_int_clamped(bits, -2147483648, 2147483647, true) as i32,
        ),
        ConcreteType::Int64 => ValView::VI64(
            f32_to_int_clamped(bits, -9223372036854775808, 9223372036854775807, true) as i64,
        ),
        ConcreteType::UInt8 => ValView::VU8(f32_to_int_clamped(bits, 0, 255, true) as u8),
        ConcreteType::UInt16 => ValView::VU16(f32_to_int_clamped(bits, 0, 65535, true) as u16),
        ConcreteType::UInt32 => ValView::VU32(
            f32_to_int_clamped(bits, 0, 4294967295, true) as u32,
        ),
        ConcreteType::UInt64 => ValView::VU64(
            f32_to_int_clamped(bits, 0, 18446744073709551615, true) as u64,
        ),
        _ => ValView::VF32(bits),
    }
}

/// The cast of the text `s` to `t` (a target the text family supports).
pub open spec fn str_cast_v(s: Seq<char>, t: ConcreteType) -> ValView
    recommends
        t != ConcreteType::Float32 && t != ConcreteType::Float64,
{
    match t {
        ConcreteType::Boolean => ValView::VBool(is_true_literal(s)),
        ConcreteType::Int8 => ValView::VI8(parse_clamped(s, -128, 127) as i8),
        ConcreteType::Int16 => ValView::VI16(parse_clamped(s, -32768, 32767) as i16),
        ConcreteType::Int32 => ValView::VI32(parse_clamped(s, -2147483648, 2147483647) as i32),
        ConcreteType::Int64 => ValView::VI64(
            parse_clamped(s, -9223372036854775808, 9223372036854775807) as i64,
        ),
        ConcreteType::UInt8 => ValView::VU8(parse_clamped(s, 0, 255) as u8),
        ConcreteType::UInt16 => ValView::VU16(parse_clamped(s, 0, 65535) as u16),
        ConcreteType::UInt32 => ValView::VU32(parse_clamped(s, 0, 4294967295) as u32),
        ConcreteType::UInt64 => ValView::VU64(parse_clamped(s, 0, 18446744073709551615) as u64),
        _ => ValView::VStr(s),
    }
}

/// The full cast matrix on mathematical content: what casting a value of
/// content `v` to `t` yields, or which error it reports.
pub open spec fn cast_v(v: ValView, t: ConcreteType) -> Result<ValView, EngineError> {
    if !cast_ok(v, t) {
        Err(EngineError::UnsupportedType)
    } else {
        match v {
            ValView::VBool(b) => Ok(bool_cast_v(b, t)),
            ValView::VF32(bits) => Ok(f32_cast_v(bits, t)),
            ValView::VF64(bits) => Ok(f64_cast_v(bits, t)),
            ValView::VStr(s) => Ok(str_cast_v(s, t)),
            _ => Ok(int_cast_v(v.vint(), t)),
        }
    }
}

/// Reduces `x` to an unsigned word: the `modulus` is `2^w`.
fn wrap_to_unsigned(x: i128, modulus: u128, Ghost(w): Ghost<nat>) -> (r: u128)
    requires
        -0x1_0000_0000_0000_0000 < x < 0x1_0000_0000_0000_0000,
        w <= 64,
        modulus as int == pow2(w),
    ensures
        r as int == wrap_u(x as int, w),
        r < modulus,
{
    proof {
        lemma2_to64();
        lemma2_to64_rest();
        lemma_pow2_pos(w);
    }
    let ru: u128 = if x >= 0 {
        x as u128
    } else {
        0x1_0000_0000_0000_0000u128 - ((-x) as u128)
    };
    proof {
        let p64: int = pow2(64) as int;
        if x >= 0 {
            lemma_small_mod(x as nat, pow2(64));
        } else {
            lemma_mod_multiples_vanish(1, x as int, p64);
            lemma_small_mod((x + p64) as nat, pow2(64));
        }
        assert(ru as int == (x as int) % p64);
        lemma_pow2_adds(w, (64 - w) as nat);
        lemma_mod_mod(x as int, pow2(w) as int, pow2((64 - w) as nat) as int);
    }
    ru % modulus
}

/// Reduces `x` to a two's-complement word: the `modulus` is `2^w`.
fn wrap_to_signed(x: i128, modulus: u128, Ghost(w): Ghost<nat>) -> (r: i128)
    requires
        -0x1_0000_0000_0000_0000 < x < 0x1_0000_0000_0000_0000,
        1 <= w <= 64,
        modulus as int == pow2(w),
    ensures
        r as int == wrap_i(x as int, w),
        -(modulus as int) <= 2 * (r as int) < modulus as int,
{
    let u: u128 = wrap_to_unsigned(x, modulus, Ghost(w));
    proof {
        lemma_pow2_adds((w - 1) as nat, 1);
        lemma2_to64();
        lemma2_to64_rest();
        if w < 64 {
            vstd::arithmetic::power2::lemma_pow2_strictly_increases(w, 64);
        }
        assert(modulus as int == pow2((w - 1) as nat) * 2);
    }
    let half: u128 = modulus / 2;
    if u >= half {
        (u as i128) - (modulus as i128)
    } else {
        u as i128
    }
}

/// Casts the integer value `x` to `t`.
fn cast_from_int(x: i128, t: ConcreteType) -> (r: Result<ArrowValue, EngineError>)
    requires
        -0x1_0000_0000_0000_0000 < x < 0x1_0000_0000_0000_0000,
    ensures
        r is Ok <==> (t != ConcreteType::Float32 && t != ConcreteType::Float64),
        r matches Ok(out) ==> out@ == int_cast_v(x as int, t),
        r matches Err(e) ==> e == EngineError::UnsupportedType,
{
    proof {
        lemma2_to64();
        lemma2_to64_rest();
    }
    match t {
        ConcreteType::Boolean => Ok(ArrowValue::BooleanType(x != 0)),
        ConcreteType::Int8 => {
            let v: i128 = wrap_to_signed(x, 0x100, Ghost(8nat));
            Ok(ArrowValue::Int8Type(v as i8))
        },
        ConcreteType::Int16 => {
            let v: i128 = wrap_to_signed(x, 0x1_0000, Ghost(16nat));
            Ok(ArrowValue::Int16Type(v as i16))
        },
        ConcreteType::Int32 => {
            let v: i128 = wrap_to_signed(x, 0x1_0000_0000, Ghost(32nat));
            Ok(ArrowValue::Int32Type(v as i32))
        },
        ConcreteType::Int64 => {
            let v: i128 = wrap_to_signed(x, 0x1_0000_0000_0000_0000, Ghost(64nat));
            Ok(ArrowValue::Int64Type(v as i64))
        },
        ConcreteType::UInt8 => {
            let v: u128 = wrap_to_unsigned(x, 0x100, Ghost(8nat));
            Ok(ArrowValue::UInt8Type(v as u8))
        },
        ConcreteType::UInt16 => {
            let v: u128 = wrap_to_unsigned(x, 0x1_0000, Ghost(16nat));
            Ok(ArrowValue::UInt16Type(v as u16))
        },
        ConcreteType::UInt32 => {
            let v: u128 = wrap_to_unsigned(x, 0x1_0000_0000, Ghost(32nat));
            Ok(ArrowValue::UInt32Type(v as u32))
        },
        ConcreteType::UInt64 => {
            let v: u128 = wrap_to_unsigned(x, 0x1_0000_0000_0000_0000, Ghost(64nat));
            Ok(ArrowValue::UInt64Type(v as u64))
        },
        ConcreteType::Float32 => Err(EngineError::UnsupportedType),
        ConcreteType::Float64 => Err(EngineError::UnsupportedType),
        ConcreteType::Utf8 => Ok(ArrowValue::StringType(fmt_i128(x))),
    }
}

/// Casts the 64-bit float encoding `bits` to `t`.
fn cast_from_f64(bits: u64, t: ConcreteType) -> (r: Result<ArrowValue, EngineError>)
    ensures
        r is Ok <==> (t != ConcreteType::Utf8 && t != ConcreteType::Float32),
        r matches Ok(out) ==> out@ == f64_cast_v(bits, t),
        r matches Err(e) ==> e == EngineError::UnsupportedType,
{
    match t {
        ConcreteType::Boolean => Ok(ArrowValue::BooleanType(bits % 0x8000_0000_0000_0000 != 0)),
        ConcreteType::Int8 => {
            let v: i128 = f64_to_int_clamped_exec(bits, -128, 127, true);
            Ok(ArrowValue::Int8Type(v as i8))
        },
        ConcreteType::Int16 => {
            let v: i128 = f64_to_int_clamped_exec(bits, -32768, 32767, true);
            Ok(ArrowValue::Int16Type(v as i16))
        },
        ConcreteType::Int32 => {
            let v: i128 = f64_to_int_clamped_exec(bits, -2147483648, 2147483647, true);
            Ok(ArrowValue::Int32Type(v as i32))
        },
        ConcreteType::Int64 => {
            let v: i128 = f64_to_int_clamped_exec(
                bits,
                -9223372036854775808,
                9223372036854775807,
                true,
            );
            Ok(ArrowValue::Int64Type(v as i64))
        },
        ConcreteType::UInt8 => {
            let v: i128 = f64_to_int_clamped_exec(bits, 0, 255, true);
            Ok(ArrowValue::UInt8Type(v as u8))
        },
        ConcreteType::UInt16 => {
            let v: i128 = f64_to_int_clamped_exec(bits, 0, 65535, true);
            Ok(ArrowValue::UInt16Type(v as u16))
        },
        ConcreteType::UInt32 => {
            let v: i128 = f64_to_int_clamped_exec(bits, 0, 4294967295, true);
            Ok(ArrowValue::UInt32Type(v as u32))
        },
        ConcreteType::UInt64 => {
            let v: i128 = f64_to_int_clamped_exec(bits, 0, 18446744073709551615, true);
            Ok(ArrowValue::UInt64Type(v as u64))
        },
        ConcreteType::Float64 => Ok(ArrowValue::DoubleType(bits)),
        ConcreteType::Float32 => Err(EngineError::UnsupportedType),
        ConcreteType::Utf8 => Err(EngineError::UnsupportedType),
    }
}

/// Casts the 32-bit float encoding `bits` to `t`.
fn cast_from_f32(bits: u32, t: ConcreteType) -> (r: Result<ArrowValue, EngineError>)
    ensures
        r is Ok <==> (t != ConcreteType::Utf8 && t != ConcreteType::Float64),
        r matches Ok(out) ==> out@ == f32_cast_v(bits, t),
        r matches Err(e) ==> e == EngineError::UnsupportedType,
{
    match t {
        ConcreteType::Boolean => Ok(ArrowValue::BooleanType(bits % 0x8000_0000 != 0)),
        ConcreteType::Int8 => {
            let v: i128 = f32_to_int_clamped_exec(bits, -128, 127, true);
            Ok(ArrowValue::Int8Type(v as i8))
        },
        ConcreteType::Int16 => {
            let v: i128 = f32_to_int_clamped_exec(bits, -32768, 32767, true);
            Ok(ArrowValue::Int16Type(v as i16))
        },
        ConcreteType::Int32 => {
            let v: i128 = f32_to_int_clamped_exec(bits, -2147483648, 2147483647, true);
            Ok(ArrowValue::Int32Type(v as i32))
        },
        ConcreteType::Int64 => {
            let v: i128 = f32_to_int_clamped_exec(
                bits,
                -9223372036854775808,
                9223372036854775807,
                true,
            );
            Ok(ArrowValue::Int64Type(v as i64))
        },
        ConcreteType::UInt8 => {
            let v: i128 = f32_to_int_clamped_exec(bits, 0, 255, true);
            Ok(ArrowValue::UInt8Type(v as u8))
        },
        ConcreteType::UInt16 => {
            let v: i128 = f32_to_int_clamped_exec(bits, 0, 65535, true);
            Ok(ArrowValue::UInt16Type(v as u16))
        },
        ConcreteType::UInt32 => {
            let v: i128 = f32_to_int_clamped_exec(bits, 0, 4294967295, true);
            Ok(ArrowValue::UInt32Type(v as u32))
        },
        ConcreteType::UInt64 => {
            let v: i128 = f32_to_int_clamped_exec(bits, 0, 18446744073709551615, true);
            Ok(ArrowValue::UInt64Type(v as u64))
        },
        ConcreteType::Float32 => Ok(ArrowValue::FloatType(bits)),
        ConcreteType::Float64 => Err(EngineError::UnsupportedType),
        ConcreteType::Utf8 => Err(EngineError::UnsupportedType),
    }
}

/// Casts the text `s` to `t`.
fn cast_from_str(s: &String, t: ConcreteType) -> (r: Result<ArrowValue, EngineError>)
    ensures
        r is Ok <==> (t != ConcreteType::Float32 && t != ConcreteType::Float64),
        r matches Ok(out) ==> out@ == str_cast_v(s@, t),
        r matches Err(e) ==> e == EngineError::UnsupportedType,
{
    match t {
        ConcreteType::Boolean => Ok(ArrowValue::BooleanType(parse_bool(s.as_str()))),
        ConcreteType::Int8 => {
            let v: i128 = parse_in_range(s.as_str(), -128, 127);
            Ok(ArrowValue::Int8Type(v as i8))
        },
        ConcreteType::Int16 => {
            let v: i128 = parse_in_range(s.as_str(), -32768, 32767);
            Ok(ArrowValue::Int16Type(v as i16))
        },
        ConcreteType::Int32 => {
            let v: i128 = parse_in_range(s.as_str(), -2147483648, 2147483647);
            Ok(ArrowValue::Int32Type(v as i32))
        },
        ConcreteType::Int64 => {
            let v: i128 = parse_in_range(s.as_str(), -9223372036854775808, 9223372036854775807);
            Ok(ArrowValue::Int64Type(v as i64))
        },
        ConcreteType::UInt8 => {
            let v: i128 = parse_in_range(s.as_str(), 0, 255);
            Ok(ArrowValue::UInt8Type(v as u8))
        },
        ConcreteType::UInt16 => {
            let v: i128 = parse_in_range(s.as_str(), 0, 65535);
            Ok(ArrowValue::UInt16Type(v as u16))
        },
        ConcreteType::UInt32 => {
            let v: i128 = parse_in_range(s.as_str(), 0, 4294967295);
            Ok(ArrowValue::UInt32Type(v as u32))
        },
        ConcreteType::UInt64 => {
            let v: i128 = parse_in_range(s.as_str(), 0, 18446744073709551615);
            Ok(ArrowValue::UInt64Type(v as u64))
        },
        ConcreteType::Float32 => Err(EngineError::UnsupportedType),
        ConcreteType::Float64 => Err(EngineError::UnsupportedType),
        ConcreteType::Utf8 => Ok(ArrowValue::StringType(s.clone())),
    }
}

impl ArrowValue {
    /// Casts this value to the target type; see the module description for
    /// the matrix of semantics. Fails with `UnsupportedType` exactly on the
    /// pairs `cast_ok` excludes.
    pub fn cast_to(&self, data_type: ConcreteType) -> (r: Result<ArrowValue, EngineError>)
        ensures
            r is Ok <==> cast_ok(self@, data_type),
            r matches Ok(out) ==> cast_v(self@, data_type) == Ok::<ValView, EngineError>(out@),
            r matches Err(e) ==> cast_v(self@, data_type) == Err::<ValView, EngineError>(e),
    {
        match self {
            ArrowValue::BooleanType(b) => {
                match data_type {
                    ConcreteType::Utf8 => Ok(
                        ArrowValue::StringType(
                            String::from_str(
                                if *b {
                                    "true"
                                } else {
                                    "false"
                                },
                            ),
                        ),
                    ),
                    ConcreteType::Float32 => Ok(
                        ArrowValue::FloatType(
                            if *b {
                                0x3F80_0000u32
                            } else {
                                0u32
                            },
                        ),
                    ),
                    ConcreteType::Float64 => Ok(
                        ArrowValue::DoubleType(
                            if *b {
                                0x3FF0_0000_0000_0000u64
                            } else {
                                0u64
                            },
                        ),
                    ),
                    _ => cast_from_int(
                        if *b {
                            1
                        } else {
                            0
                        },
                        data_type,
                    ),
                }
            },
            ArrowValue::Int8Type(v) => cast_from_int(*v as i128, data_type),
            ArrowValue::Int16Type(v) => cast_from_int(*v as i128, data_type),
            ArrowValue::Int32Type(v) => cast_from_int(*v as i128, data_type),
            ArrowValue::Int64Type(v) => cast_from_int(*v as i128, data_type),
            ArrowValue::UInt8Type(v) => cast_from_int(*v as i128, data_type),
            ArrowValue::UInt16Type(v) => cast_from_int(*v as i128, data_type),
            ArrowValue::UInt32Type(v) => cast_from_int(*v as i128, data_type),
            ArrowValue::UInt64Type(v) => cast_from_int(*v as i128, data_type),
            ArrowValue::FloatType(bits) => cast_from_f32(*bits, data_type),
            ArrowValue::DoubleType(bits) => cast_from_f64(*bits, data_type),
            ArrowValue::StringType(s) => cast_from_str(s, data_type),
        }
    }
}

/// Wrapping to `w` bits leaves a value already in the signed `w`-bit range
/// unchanged.
proof fn lemma_wrap_i_identity(x: int, w: nat)
    requires
        1 <= w,
        -pow2((w - 1) as nat) <= x < pow2((w - 1) as nat),
    ensures
        wrap_i(x, w) == x,
{
    lemma_pow2_adds((w - 1) as nat, 1);
    lemma2_to64();
    assert(pow2(w) == pow2((w - 1) as nat) * 2);
    if x >= 0 {
        lemma_small_mod(x as nat, pow2(w));
    } else {
        lemma_mod_multiples_vanish(1, x, pow2(w) as int);
        lemma_small_mod((x + pow2(w)) as nat, pow2(w));
    }
}

/// Wrapping to `w` bits leaves a value already in the unsigned `w`-bit range
/// unchanged.
proof fn lemma_wrap_u_identity(x: int, w: nat)
    requires
        0 <= x < pow2(w),
    ensures
        wrap_u(x, w) == x,
{
    lemma_small_mod(x as nat, pow2(w));
}

/// Casting any value to its own type is the identity: the cast is defined
/// and yields the value's own content.
pub proof fn lemma_cast_identity(v: ArrowValue)
    ensures
        cast_ok(v@, v.spec_type()),
        cast_v(v@, v.spec_type()) == Ok::<ValView, EngineError>(v@),
{
    lemma2_to64();
    lemma2_to64_rest();
    match v {
        ArrowValue::Int8Type(x) => lemma_wrap_i_identity(x as int, 8),
        ArrowValue::Int16Type(x) => lemma_wrap_i_identity(x as int, 16),
        ArrowValue::Int32Type(x) => lemma_wrap_i_identity(x as int, 32),
        ArrowValue::Int64Type(x) => lemma_wrap_i_identity(x as int, 64),
        ArrowValue::UInt8Type(x) => lemma_wrap_u_identity(x as int, 8),
        ArrowValue::UInt16Type(x) => lemma_wrap_u_identity(x as int, 16),
        ArrowValue::UInt32Type(x) => lemma_wrap_u_identity(x as int, 32),
        ArrowValue::UInt64Type(x) => lemma_wrap_u_identity(x as int, 64),
        _ => {},
    }
}

} // verus!
