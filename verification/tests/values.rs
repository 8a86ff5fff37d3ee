use unakitesql::errors::EngineError;
use unakitesql::value::{compare_values, ArrowValue, ValOrdering};

#[test]
fn compare_integers() {
    let a = ArrowValue::Int16Type(-3);
    let b = ArrowValue::Int16Type(4);
    assert_eq!(compare_values(&a, &b).unwrap(), Some(ValOrdering::Less));
    assert_eq!(compare_values(&b, &a).unwrap(), Some(ValOrdering::Greater));
    assert_eq!(compare_values(&a, &a).unwrap(), Some(ValOrdering::Equal));
}

#[test]
fn compare_booleans() {
    let f = ArrowValue::BooleanType(false);
    let t = ArrowValue::BooleanType(true);
    assert_eq!(compare_values(&f, &t).unwrap(), Some(ValOrdering::Less));
}

#[test]
fn compare_strings_lexicographically() {
    let a = ArrowValue::StringType(String::from("aab"));
    let b = ArrowValue::StringType(String::from("aac"));
    assert_eq!(compare_values(&a, &b).unwrap(), Some(ValOrdering::Less));
    let p = ArrowValue::StringType(String::from("aa"));
    assert_eq!(compare_values(&p, &a).unwrap(), Some(ValOrdering::Less));
    assert_eq!(compare_values(&a, &a).unwrap(), Some(ValOrdering::Equal));
    let z = ArrowValue::StringType(String::from("zzz"));
    assert_eq!(compare_values(&z, &a).unwrap(), Some(ValOrdering::Greater));
}

#[test]
fn compare_floats_by_value() {
    let small = ArrowValue::DoubleType(1.25f64.to_bits());
    let big = ArrowValue::DoubleType(100.5f64.to_bits());
    assert_eq!(
        compare_values(&small, &big).unwrap(),
        Some(ValOrdering::Less)
    );
    let neg = ArrowValue::DoubleType((-1.0f64).to_bits());
    assert_eq!(compare_values(&neg, &small).unwrap(), Some(ValOrdering::Less));
    // The two IEEE 754 zeros compare equal although their bits differ.
    let z = ArrowValue::FloatType(0.0f32.to_bits());
    let nz = ArrowValue::FloatType((-0.0f32).to_bits());
    assert_eq!(compare_values(&z, &nz).unwrap(), Some(ValOrdering::Equal));
}

#[test]
fn compare_nan_is_unordered() {
    let nan = ArrowValue::DoubleType(f64::NAN.to_bits());
    let one = ArrowValue::DoubleType(1.0f64.to_bits());
    assert_eq!(compare_values(&nan, &one).unwrap(), None);
    assert_eq!(compare_values(&nan, &nan).unwrap(), None);
}

#[test]
fn compare_across_types_is_a_mismatch() {
    let a = ArrowValue::Int8Type(1);
    let b = ArrowValue::Int16Type(1);
    assert_eq!(compare_values(&a, &b), Err(EngineError::TypeMismatch));
}

#[test]
fn value_equality_is_structural() {
    assert_eq!(
        ArrowValue::StringType(String::from("x")),
        ArrowValue::StringType(String::from("x"))
    );
    assert_ne!(ArrowValue::Int8Type(1), ArrowValue::Int8Type(2));
    assert_ne!(
        ArrowValue::Int8Type(1),
        ArrowValue::UInt8Type(1),
        "values of different types never compare equal"
    );
}
