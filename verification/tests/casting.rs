use unakitesql::errors::EngineError;
use unakitesql::value::{ArrowValue, ConcreteType};

#[test]
fn cast_identity_keeps_values() {
    let samples = vec![
        ArrowValue::BooleanType(true),
        ArrowValue::Int8Type(-5),
        ArrowValue::Int64Type(i64::MIN),
        ArrowValue::UInt64Type(u64::MAX),
        ArrowValue::FloatType(1.5f32.to_bits()),
        ArrowValue::DoubleType((-0.25f64).to_bits()),
        ArrowValue::StringType(String::from("abc")),
    ];
    for v in samples {
        let t = v.get_conc_type();
        assert_eq!(v.cast_to(t).unwrap(), v);
    }
}

#[test]
fn cast_rounds_half_away_from_zero() {
    let up = ArrowValue::DoubleType(2.5f64.to_bits());
    assert_eq!(
        up.cast_to(ConcreteType::Int32).unwrap(),
        ArrowValue::Int32Type(3)
    );
    let down = ArrowValue::DoubleType((-2.5f64).to_bits());
    assert_eq!(
        down.cast_to(ConcreteType::Int32).unwrap(),
        ArrowValue::Int32Type(-3)
    );
}

#[test]
fn cast_double_to_ints_rounds_and_clamps() {
    let v = ArrowValue::DoubleType(2.4f64.to_bits());
    assert_eq!(
        v.cast_to(ConcreteType::Int8).unwrap(),
        ArrowValue::Int8Type(2)
    );
    let big = ArrowValue::DoubleType(1.0e12f64.to_bits());
    assert_eq!(
        big.cast_to(ConcreteType::Int16).unwrap(),
        ArrowValue::Int16Type(i16::MAX)
    );
    let neg = ArrowValue::DoubleType((-7.0f64).to_bits());
    assert_eq!(
        neg.cast_to(ConcreteType::UInt8).unwrap(),
        ArrowValue::UInt8Type(0)
    );
    let nan = ArrowValue::DoubleType(f64::NAN.to_bits());
    assert_eq!(
        nan.cast_to(ConcreteType::Int64).unwrap(),
        ArrowValue::Int64Type(0)
    );
    let inf = ArrowValue::FloatType(f32::INFINITY.to_bits());
    assert_eq!(
        inf.cast_to(ConcreteType::UInt16).unwrap(),
        ArrowValue::UInt16Type(u16::MAX)
    );
}

#[test]
fn cast_int_to_int_wraps() {
    let v = ArrowValue::Int32Type(300);
    assert_eq!(
        v.cast_to(ConcreteType::UInt8).unwrap(),
        ArrowValue::UInt8Type(44)
    );
    assert_eq!(
        v.cast_to(ConcreteType::Int8).unwrap(),
        ArrowValue::Int8Type(44)
    );
    let n = ArrowValue::Int16Type(-1);
    assert_eq!(
        n.cast_to(ConcreteType::UInt16).unwrap(),
        ArrowValue::UInt16Type(65535)
    );
    assert_eq!(
        n.cast_to(ConcreteType::UInt64).unwrap(),
        ArrowValue::UInt64Type(u64::MAX)
    );
}

#[test]
fn cast_bool_both_ways() {
    let t = ArrowValue::BooleanType(true);
    assert_eq!(
        t.cast_to(ConcreteType::Int32).unwrap(),
        ArrowValue::Int32Type(1)
    );
    assert_eq!(
        t.cast_to(ConcreteType::Float32).unwrap(),
        ArrowValue::FloatType(1.0f32.to_bits())
    );
    assert_eq!(
        t.cast_to(ConcreteType::Float64).unwrap(),
        ArrowValue::DoubleType(1.0f64.to_bits())
    );
    let z = ArrowValue::Int64Type(0);
    assert_eq!(
        z.cast_to(ConcreteType::Boolean).unwrap(),
        ArrowValue::BooleanType(false)
    );
    let nz = ArrowValue::UInt8Type(7);
    assert_eq!(
        nz.cast_to(ConcreteType::Boolean).unwrap(),
        ArrowValue::BooleanType(true)
    );
    // Both floating-point zeros are zero; NaN is not.
    let negz = ArrowValue::DoubleType((-0.0f64).to_bits());
    assert_eq!(
        negz.cast_to(ConcreteType::Boolean).unwrap(),
        ArrowValue::BooleanType(false)
    );
    let nan = ArrowValue::FloatType(f32::NAN.to_bits());
    assert_eq!(
        nan.cast_to(ConcreteType::Boolean).unwrap(),
        ArrowValue::BooleanType(true)
    );
}

#[test]
fn cast_int_to_text() {
    let v = ArrowValue::Int8Type(-45);
    assert_eq!(
        v.cast_to(ConcreteType::Utf8).unwrap(),
        ArrowValue::StringType(String::from("-45"))
    );
    let u = ArrowValue::UInt64Type(18446744073709551615);
    assert_eq!(
        u.cast_to(ConcreteType::Utf8).unwrap(),
        ArrowValue::StringType(String::from("18446744073709551615"))
    );
}

#[test]
fn cast_bool_to_text_spells_the_words() {
    let f = ArrowValue::BooleanType(false);
    assert_eq!(
        f.cast_to(ConcreteType::Utf8).unwrap(),
        ArrowValue::StringType(String::from("false"))
    );
    let t = ArrowValue::BooleanType(true);
    assert_eq!(
        t.cast_to(ConcreteType::Utf8).unwrap(),
        ArrowValue::StringType(String::from("true"))
    );
    // The words round-trip through the text-to-boolean parse.
    assert_eq!(
        t.cast_to(ConcreteType::Utf8)
            .unwrap()
            .cast_to(ConcreteType::Boolean)
            .unwrap(),
        ArrowValue::BooleanType(true)
    );
}

#[test]
fn cast_text_to_int_zero_on_failure() {
    let ok = ArrowValue::StringType(String::from("12"));
    assert_eq!(
        ok.cast_to(ConcreteType::Int32).unwrap(),
        ArrowValue::Int32Type(12)
    );
    let plus = ArrowValue::StringType(String::from("+7"));
    assert_eq!(
        plus.cast_to(ConcreteType::UInt8).unwrap(),
        ArrowValue::UInt8Type(7)
    );
    let neg = ArrowValue::StringType(String::from("-5"));
    assert_eq!(
        neg.cast_to(ConcreteType::Int8).unwrap(),
        ArrowValue::Int8Type(-5)
    );
    // Out-of-range and malformed inputs degrade to zero.
    let over = ArrowValue::StringType(String::from("300"));
    assert_eq!(
        over.cast_to(ConcreteType::Int8).unwrap(),
        ArrowValue::Int8Type(0)
    );
    let neg_for_unsigned = ArrowValue::StringType(String::from("-5"));
    assert_eq!(
        neg_for_unsigned.cast_to(ConcreteType::UInt32).unwrap(),
        ArrowValue::UInt32Type(0)
    );
    let junk = ArrowValue::StringType(String::from("12a"));
    assert_eq!(
        junk.cast_to(ConcreteType::Int64).unwrap(),
        ArrowValue::Int64Type(0)
    );
    let empty = ArrowValue::StringType(String::new());
    assert_eq!(
        empty.cast_to(ConcreteType::Int16).unwrap(),
        ArrowValue::Int16Type(0)
    );
    let huge = ArrowValue::StringType(String::from("99999999999999999999999999"));
    assert_eq!(
        huge.cast_to(ConcreteType::UInt64).unwrap(),
        ArrowValue::UInt64Type(0)
    );
    let zeros = ArrowValue::StringType(String::from("0007"));
    assert_eq!(
        zeros.cast_to(ConcreteType::Int32).unwrap(),
        ArrowValue::Int32Type(7)
    );
}

#[test]
fn cast_text_to_bool_ignores_letter_case() {
    for s in ["true", "TRUE", "True", "tRuE"] {
        let v = ArrowValue::StringType(String::from(s));
        assert_eq!(
            v.cast_to(ConcreteType::Boolean).unwrap(),
            ArrowValue::BooleanType(true)
        );
    }
    for s in ["false", "yes", "1", ""] {
        let v = ArrowValue::StringType(String::from(s));
        assert_eq!(
            v.cast_to(ConcreteType::Boolean).unwrap(),
            ArrowValue::BooleanType(false)
        );
    }
}

#[test]
fn cast_unsupported_pairs_report_unsupported_type() {
    // Conversions that would require floating-point arithmetic are not
    // defined in the verified core.
    let i = ArrowValue::Int32Type(3);
    assert_eq!(
        i.cast_to(ConcreteType::Float64),
        Err(EngineError::UnsupportedType)
    );
    let f = ArrowValue::FloatType(1.5f32.to_bits());
    assert_eq!(
        f.cast_to(ConcreteType::Float64),
        Err(EngineError::UnsupportedType)
    );
    assert_eq!(
        f.cast_to(ConcreteType::Utf8),
        Err(EngineError::UnsupportedType)
    );
    let s = ArrowValue::StringType(String::from("1.5"));
    assert_eq!(
        s.cast_to(ConcreteType::Float32),
        Err(EngineError::UnsupportedType)
    );
}
