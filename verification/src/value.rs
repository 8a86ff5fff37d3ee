//! The scalar value model: twelve primitive types and a tagged union holding
//! exactly one scalar of one of them.
//!
//! 32- and 64-bit floating-point scalars are carried as their IEEE 754 bit
//! patterns (`u32` / `u64`); see `floats` for the arithmetic on the encoding.

use vstd::prelude::*;
use crate::errors::EngineError;
use crate::floats::{f32_is_nan, f32_key, f64_is_nan, f64_key};

verus! {

/// The closed set of primitive types a value, column or builder can have.
#[derive(Clone, Copy, Debug, PartialEq, Eq, Structural)]
pub enum ConcreteType {
    Boolean,
    Int8,
    Int16,
    Int32,
    Int64,
    UInt8,
    UInt16,
    UInt32,
    UInt64,
    Float32,
    Float64,
    Utf8,
}

/// One scalar of one supported primitive type.
///
/// `FloatType` and `DoubleType` hold IEEE 754 bit patterns.
#[derive(Debug)]
pub enum ArrowValue {
    BooleanType(bool),
    Int8Type(i8),
    Int16Type(i16),
    Int32Type(i32),
    Int64Type(i64),
    UInt8Type(u8),
    UInt16Type(u16),
    UInt32Type(u32),
    UInt64Type(u64),
    FloatType(u32),
    DoubleType(u64),
    StringType(String),
}

/// The mathematical content of a scalar: its payload, with text as a
/// character sequence.
pub enum ValView {
    VBool(bool),
    VI8(i8),
    VI16(i16),
    VI32(i32),
    VI64(i64),
    VU8(u8),
    VU16(u16),
    VU32(u32),
    VU64(u64),
    VF32(u32),
    VF64(u64),
    VStr(Seq<char>),
}

impl ValView {
    /// The concrete type of the scalar this view describes.
    pub open spec fn vtype(&self) -> ConcreteType {
        match self {
            ValView::VBool(_) => ConcreteType::Boolean,
            ValView::VI8(_) => ConcreteType::Int8,
            ValView::VI16(_) => ConcreteType::Int16,
            ValView::VI32(_) => ConcreteType::Int32,
            ValView::VI64(_) => ConcreteType::Int64,
            ValView::VU8(_) => ConcreteType::UInt8,
            ValView::VU16(_) => ConcreteType::UInt16,
            ValView::VU32(_) => ConcreteType::UInt32,
            ValView::VU64(_) => ConcreteType::UInt64,
            ValView::VF32(_) => ConcreteType::Float32,
            ValView::VF64(_) => ConcreteType::Float64,
            ValView::VStr(_) => ConcreteType::Utf8,
        }
    }

    /// The mathematical integer a boolean or integer view denotes.
    pub open spec fn vint(&self) -> int {
        match self {
            ValView::VBool(b) => if *b {
                1int
            } else {
                0int
            },
            ValView::VI8(v) => *v as int,
            ValView::VI16(v) => *v as int,
            ValView::VI32(v) => *v as int,
            ValView::VI64(v) => *v as int,
            ValView::VU8(v) => *v as int,
            ValView::VU16(v) => *v as int,
            ValView::VU32(v) => *v as int,
            ValView::VU64(v) => *v as int,
            ValView::VF32(_) => 0int,
            ValView::VF64(_) => 0int,
            ValView::VStr(_) => 0int,
        }
    }
}

impl View for ArrowValue {
    type V = ValView;

    open spec fn view(&self) -> ValView {
        match self {
            ArrowValue::BooleanType(v) => ValView::VBool(*v),
            ArrowValue::Int8Type(v) => ValView::VI8(*v),
            ArrowValue::Int16Type(v) => ValView::VI16(*v),
            ArrowValue::Int32Type(v) => ValView::VI32(*v),
            ArrowValue::Int64Type(v) => ValView::VI64(*v),
            ArrowValue::UInt8Type(v) => ValView::VU8(*v),
            ArrowValue::UInt16Type(v) => ValView::VU16(*v),
            ArrowValue::UInt32Type(v) => ValView::VU32(*v),
            ArrowValue::UInt64Type(v) => ValView::VU64(*v),
            ArrowValue::FloatType(v) => ValView::VF32(*v),
            ArrowValue::DoubleType(v) => ValView::VF64(*v),
            ArrowValue::StringType(v) => ValView::VStr(v@),
        }
    }
}

impl ArrowValue {
    /// The concrete type this value belongs to.
    pub open spec fn spec_type(&self) -> ConcreteType {
        match self {
            ArrowValue::BooleanType(_) => ConcreteType::Boolean,
            ArrowValue::Int8Type(_) => ConcreteType::Int8,
            ArrowValue::Int16Type(_) => ConcreteType::Int16,
            ArrowValue::Int32Type(_) => ConcreteType::Int32,
            ArrowValue::Int64Type(_) => ConcreteType::Int64,
            ArrowValue::UInt8Type(_) => ConcreteType::UInt8,
            ArrowValue::UInt16Type(_) => ConcreteType::UInt16,
            ArrowValue::UInt32Type(_) => ConcreteType::UInt32,
            ArrowValue::UInt64Type(_) => ConcreteType::UInt64,
            ArrowValue::FloatType(_) => ConcreteType::Float32,
            ArrowValue::DoubleType(_) => ConcreteType::Float64,
            ArrowValue::StringType(_) => ConcreteType::Utf8,
        }
    }

    /// The concrete type this value belongs to.
    #[verifier::when_used_as_spec(spec_type)]
    pub fn get_conc_type(&self) -> (t: ConcreteType)
        ensures
            t == self.spec_type(),
    {
        match self {
            ArrowValue::BooleanType(_) => ConcreteType::Boolean,
            ArrowValue::Int8Type(_) => ConcreteType::Int8,
            ArrowValue::Int16Type(_) => ConcreteType::Int16,
            ArrowValue::Int32Type(_) => ConcreteType::Int32,
            ArrowValue::Int64Type(_) => ConcreteType::Int64,
            ArrowValue::UInt8Type(_) => ConcreteType::UInt8,
            ArrowValue::UInt16Type(_) => ConcreteType::UInt16,
            ArrowValue::UInt32Type(_) => ConcreteType::UInt32,
            ArrowValue::UInt64Type(_) => ConcreteType::UInt64,
            ArrowValue::FloatType(_) => ConcreteType::Float32,
            ArrowValue::DoubleType(_) => ConcreteType::Float64,
            ArrowValue::StringType(_) => ConcreteType::Utf8,
        }
    }

}

/// Structural equality of two values: equal mathematical content (strings by
/// their character sequences, floats by their bit patterns).
pub open spec fn val_eq(a: ArrowValue, b: ArrowValue) -> bool {
    a@ == b@
}

impl Clone for ArrowValue {
    fn clone(&self) -> (r: ArrowValue)
        ensures
            r == *self,
    {
        match self {
            ArrowValue::BooleanType(v) => ArrowValue::BooleanType(*v),
            ArrowValue::Int8Type(v) => ArrowValue::Int8Type(*v),
            ArrowValue::Int16Type(v) => ArrowValue::Int16Type(*v),
            ArrowValue::Int32Type(v) => ArrowValue::Int32Type(*v),
            ArrowValue::Int64Type(v) => ArrowValue::Int64Type(*v),
            ArrowValue::UInt8Type(v) => ArrowValue::UInt8Type(*v),
            ArrowValue::UInt16Type(v) => ArrowValue::UInt16Type(*v),
            ArrowValue::UInt32Type(v) => ArrowValue::UInt32Type(*v),
            ArrowValue::UInt64Type(v) => ArrowValue::UInt64Type(*v),
            ArrowValue::FloatType(v) => ArrowValue::FloatType(*v),
            ArrowValue::DoubleType(v) => ArrowValue::DoubleType(*v),
            ArrowValue::StringType(v) => ArrowValue::StringType(v.clone()),
        }
    }
}

impl PartialEq for ArrowValue {
    fn eq(&self, other: &ArrowValue) -> (r: bool) {
        match (self, other) {
            (ArrowValue::BooleanType(x), ArrowValue::BooleanType(y)) => *x == *y,
            (ArrowValue::Int8Type(x), ArrowValue::Int8Type(y)) => *x == *y,
            (ArrowValue::Int16Type(x), ArrowValue::Int16Type(y)) => *x == *y,
            (ArrowValue::Int32Type(x), ArrowValue::Int32Type(y)) => *x == *y,
            (ArrowValue::Int64Type(x), ArrowValue::Int64Type(y)) => *x == *y,
            (ArrowValue::UInt8Type(x), ArrowValue::UInt8Type(y)) => *x == *y,
            (ArrowValue::UInt16Type(x), ArrowValue::UInt16Type(y)) => *x == *y,
            (ArrowValue::UInt32Type(x), ArrowValue::UInt32Type(y)) => *x == *y,
            (ArrowValue::UInt64Type(x), ArrowValue::UInt64Type(y)) => *x == *y,
            (ArrowValue::FloatType(x), ArrowValue::FloatType(y)) => *x == *y,
            (ArrowValue::DoubleType(x), ArrowValue::DoubleType(y)) => *x == *y,
            (ArrowValue::StringType(x), ArrowValue::StringType(y)) => x.eq(y),
            _ => false,
        }
    }
}

impl vstd::std_specs::cmp::PartialEqSpecImpl for ArrowValue {
    open spec fn obeys_eq_spec() -> bool {
        true
    }

    open spec fn eq_spec(&self, other: &ArrowValue) -> bool {
        val_eq(*self, *other)
    }
}

/// The outcome of comparing two same-typed values.
#[derive(Clone, Copy, Debug, PartialEq, Eq, Structural)]
pub enum ValOrdering {
    Less,
    Equal,
    Greater,
}

/// Lexicographic order on character sequences, by code point.
pub open spec fn seq_char_lt(a: Seq<char>, b: Seq<char>) -> bool
    decreases a.len(),
{
    if b.len() == 0 {
        false
    } else if a.len() == 0 {
        true
    } else if a[0] != b[0] {
        (a[0] as int) < (b[0] as int)
    } else {
        seq_char_lt(a.skip(1), b.skip(1))
    }
}

/// The comparison a pair of same-typed values denotes: `None` exactly when the
/// pair is unordered, which happens only for floats when either side is NaN.
/// Both floating-point zeros compare equal; otherwise floats compare by the
/// sign-magnitude order of their bit patterns, which on the IEEE 754 encoding
/// agrees with the order of the encoded numbers.
pub open spec fn val_cmp(a: ValView, b: ValView) -> Option<ValOrdering>
    recommends
        a.vtype() == b.vtype(),
{
    match (a, b) {
        (ValView::VStr(x), ValView::VStr(y)) => {
            if x == y {
                Some(ValOrdering::Equal)
            } else if seq_char_lt(x, y) {
                Some(ValOrdering::Less)
            } else {
                Some(ValOrdering::Greater)
            }
        },
        (ValView::VF32(x), ValView::VF32(y)) => {
            if f32_is_nan(x) || f32_is_nan(y) {
                None
            } else if f32_key(x) == f32_key(y) {
                Some(ValOrdering::Equal)
            } else if f32_key(x) < f32_key(y) {
                Some(ValOrdering::Less)
            } else {
                Some(ValOrdering::Greater)
            }
        },
        (ValView::VF64(x), ValView::VF64(y)) => {
            if f64_is_nan(x) || f64_is_nan(y) {
                None
            } else if f64_key(x) == f64_key(y) {
                Some(ValOrdering::Equal)
            } else if f64_key(x) < f64_key(y) {
                Some(ValOrdering::Less)
            } else {
                Some(ValOrdering::Greater)
            }
        },
        _ => {
            if a.vint() == b.vint() {
                Some(ValOrdering::Equal)
            } else if a.vint() < b.vint() {
                Some(ValOrdering::Less)
            } else {
                Some(ValOrdering::Greater)
            }
        },
    }
}

/// Compares two characters by code point.
fn char_lt(a: char, b: char) -> (r: bool)
    ensures
        r == ((a as int) < (b as int)),
{
    (a as u32) < (b as u32)
}

/// Decides lexicographic order of two strings, character by character.
pub fn str_lt(a: &str, b: &str) -> (r: bool)
    ensures
        r == seq_char_lt(a@, b@),
{
    let alen: usize = a.unicode_len();
    let blen: usize = b.unicode_len();
    let n: usize = if alen < blen { alen } else { blen };
    let mut i: usize = 0;
    assert(a@.skip(0) =~= a@);
    assert(b@.skip(0) =~= b@);
    while i < n
        invariant
            i <= n,
            n == if alen < blen { alen } else { blen },
            alen == a@.len(),
            blen == b@.len(),
            seq_char_lt(a@, b@) == seq_char_lt(a@.skip(i as int), b@.skip(i as int)),
        decreases n - i,
    {
        let ca: char = a.get_char(i);
        let cb: char = b.get_char(i);
        assert(a@.skip(i as int)[0] == a@[i as int]);
        assert(b@.skip(i as int)[0] == b@[i as int]);
        if (ca as u32) != (cb as u32) {
            assert(ca != cb) by {
                assert(ca as u32 != cb as u32);
            };
            return char_lt(ca, cb);
        }
        assert(a@.skip(i as int).skip(1) =~= a@.skip(i + 1));
        assert(b@.skip(i as int).skip(1) =~= b@.skip(i + 1));
        i = i + 1;
    }
    // One string is a prefix of what remains of the other.
    if alen < blen {
        assert(a@.skip(i as int).len() == 0);
        assert(b@.skip(i as int).len() > 0);
        true
    } else {
        assert(b@.skip(i as int).len() == 0);
        false
    }
}

/// Compares two same-typed values, `None` for unordered float pairs.
///
/// Fails with `TypeMismatch` exactly when the operands' types differ.
pub fn compare_values(a: &ArrowValue, b: &ArrowValue) -> (r: Result<
    Option<ValOrdering>,
    EngineError,
>)
    ensures
        r is Ok <==> a.spec_type() == b.spec_type(),
        r matches Ok(o) ==> o == val_cmp(a@, b@),
        r matches Err(e) ==> e == EngineError::TypeMismatch,
{
    match (a, b) {
        (ArrowValue::StringType(x), ArrowValue::StringType(y)) => {
            if x.eq(y) {
                Ok(Some(ValOrdering::Equal))
            } else if str_lt(x.as_str(), y.as_str()) {
                Ok(Some(ValOrdering::Less))
            } else {
                Ok(Some(ValOrdering::Greater))
            }
        },
        (ArrowValue::FloatType(x), ArrowValue::FloatType(y)) => {
            if crate::floats::f32_nan_check(*x) || crate::floats::f32_nan_check(*y) {
                Ok(None)
            } else {
                let kx: i64 = crate::floats::f32_key_exec(*x);
                let ky: i64 = crate::floats::f32_key_exec(*y);
                if kx == ky {
                    Ok(Some(ValOrdering::Equal))
                } else if kx < ky {
                    Ok(Some(ValOrdering::Less))
                } else {
                    Ok(Some(ValOrdering::Greater))
                }
            }
        },
        (ArrowValue::DoubleType(x), ArrowValue::DoubleType(y)) => {
            if crate::floats::f64_nan_check(*x) || crate::floats::f64_nan_check(*y) {
                Ok(None)
            } else {
                let kx: i128 = crate::floats::f64_key_exec(*x);
                let ky: i128 = crate::floats::f64_key_exec(*y);
                if kx == ky {
                    Ok(Some(ValOrdering::Equal))
                } else if kx < ky {
                    Ok(Some(ValOrdering::Less))
                } else {
                    Ok(Some(ValOrdering::Greater))
                }
            }
        },
        (ArrowValue::BooleanType(x), ArrowValue::BooleanType(y)) => {
            let ix: i8 = if *x { 1 } else { 0 };
            let iy: i8 = if *y { 1 } else { 0 };
            Ok(cmp_ints(ix as i128, iy as i128))
        },
        (ArrowValue::Int8Type(x), ArrowValue::Int8Type(y)) => Ok(
            cmp_ints(*x as i128, *y as i128),
        ),
        (ArrowValue::Int16Type(x), ArrowValue::Int16Type(y)) => Ok(
            cmp_ints(*x as i128, *y as i128),
        ),
        (ArrowValue::Int32Type(x), ArrowValue::Int32Type(y)) => Ok(
            cmp_ints(*x as i128, *y as i128),
        ),
        (ArrowValue::Int64Type(x), ArrowValue::Int64Type(y)) => Ok(
            cmp_ints(*x as i128, *y as i128),
        ),
        (ArrowValue::UInt8Type(x), ArrowValue::UInt8Type(y)) => Ok(
            cmp_ints(*x as i128, *y as i128),
        ),
        (ArrowValue::UInt16Type(x), ArrowValue::UInt16Type(y)) => Ok(
            cmp_ints(*x as i128, *y as i128),
        ),
        (ArrowValue::UInt32Type(x), ArrowValue::UInt32Type(y)) => Ok(
            cmp_ints(*x as i128, *y as i128),
        ),
        (ArrowValue::UInt64Type(x), ArrowValue::UInt64Type(y)) => Ok(
            cmp_ints(*x as i128, *y as i128),
        ),
        _ => Err(EngineError::TypeMismatch),
    }
}

/// Orders two machine integers.
fn cmp_ints(x: i128, y: i128) -> (r: Option<ValOrdering>)
    ensures
        r == (if x == y {
            Some(ValOrdering::Equal)
        } else if x < y {
            Some(ValOrdering::Less)
        } else {
            Some(ValOrdering::Greater)
        }),
{
    if x == y {
        Some(ValOrdering::Equal)
    } else if x < y {
        Some(ValOrdering::Less)
    } else {
        Some(ValOrdering::Greater)
    }
}

} // verus!
