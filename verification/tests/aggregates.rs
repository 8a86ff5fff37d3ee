use unakitesql::aggregates::{
    max_expression, min_expression, sum_expression, Accumulator, AggregateOp,
};
use unakitesql::builder::ArrowVectorBuilder;
use unakitesql::column_vector::ColumnVector;
use unakitesql::errors::EngineError;
use unakitesql::value::{ArrowValue, ConcreteType};

fn int64_column(values: &[i64]) -> ColumnVector {
    let mut b = ArrowVectorBuilder::new(ConcreteType::Int64, values.len());
    for (i, v) in values.iter().enumerate() {
        b.set(i, Some(ArrowValue::Int64Type(*v)));
    }
    b.build()
}

#[test]
fn accumulator() {
    let mut a_accumulator = sum_expression().create_accumulator();
    let mut b_accumulator = min_expression().create_accumulator();
    let mut c_accumulator = max_expression().create_accumulator();

    let mut b = ArrowVectorBuilder::new(ConcreteType::Int64, 10);

    b.set_all(&vec![
        Some(ArrowValue::Int64Type(0)),
        Some(ArrowValue::Int64Type(1)),
        Some(ArrowValue::Int64Type(2)),
        Some(ArrowValue::Int64Type(3)),
        Some(ArrowValue::Int64Type(4)),
        Some(ArrowValue::Int64Type(5)),
        Some(ArrowValue::Int64Type(6)),
        Some(ArrowValue::Int64Type(7)),
        Some(ArrowValue::Int64Type(8)),
        Some(ArrowValue::Int64Type(9)),
    ]);

    let v = b.build();

    let _ = a_accumulator.update(&v);
    let _ = b_accumulator.update(&v);
    let _ = c_accumulator.update(&v);

    let f = a_accumulator.final_value();
    let g = b_accumulator.final_value();
    let h = c_accumulator.final_value();

    println!("{:?}", f);
    println!("{:?}", g);
    println!("{:?}", h);
    assert_eq!(f, ArrowValue::Int64Type(45));
    assert_eq!(g, ArrowValue::Int64Type(0));
    assert_eq!(h, ArrowValue::Int64Type(9));
}

#[test]
fn sum_min_max_over_a_column() {
    // Over the sequence [10, 14, 4]: the sum is 28, the minimum 4, the
    // maximum 14.
    let col = int64_column(&[10, 14, 4]);
    let mut sum = Accumulator::new(AggregateOp::Sum);
    let mut min = Accumulator::new(AggregateOp::Min);
    let mut max = Accumulator::new(AggregateOp::Max);
    sum.update(&col).unwrap();
    min.update(&col).unwrap();
    max.update(&col).unwrap();
    assert_eq!(sum.final_value(), ArrowValue::Int64Type(28));
    assert_eq!(min.final_value(), ArrowValue::Int64Type(4));
    assert_eq!(max.final_value(), ArrowValue::Int64Type(14));
}

#[test]
fn accumulators_stream_across_batches() {
    let first = int64_column(&[10, 14]);
    let second = int64_column(&[4]);
    let mut sum = Accumulator::new(AggregateOp::Sum);
    let mut min = Accumulator::new(AggregateOp::Min);
    sum.update(&first).unwrap();
    sum.update(&second).unwrap();
    min.update(&first).unwrap();
    min.update(&second).unwrap();
    assert_eq!(sum.final_value(), ArrowValue::Int64Type(28));
    assert_eq!(min.final_value(), ArrowValue::Int64Type(4));
}

#[test]
fn count_tallies_present_values() {
    let mut b = ArrowVectorBuilder::new(ConcreteType::Utf8, 3);
    b.set(0, Some(ArrowValue::StringType(String::from("x"))));
    b.set(2, Some(ArrowValue::StringType(String::from("y"))));
    let col = b.build();
    let mut count = Accumulator::new(AggregateOp::Count);
    count.update(&col).unwrap();
    assert_eq!(count.final_value(), ArrowValue::Int64Type(2));
}

#[test]
fn min_and_max_order_floats() {
    let values = [2.5f64, -1.0f64, 7.25f64];
    let mut b = ArrowVectorBuilder::new(ConcreteType::Float64, values.len());
    for (i, v) in values.iter().enumerate() {
        b.set(i, Some(ArrowValue::DoubleType(v.to_bits())));
    }
    let col = b.build();
    let mut min = Accumulator::new(AggregateOp::Min);
    let mut max = Accumulator::new(AggregateOp::Max);
    min.update(&col).unwrap();
    max.update(&col).unwrap();
    assert_eq!(min.final_value(), ArrowValue::DoubleType((-1.0f64).to_bits()));
    assert_eq!(max.final_value(), ArrowValue::DoubleType(7.25f64.to_bits()));
}

#[test]
fn sums_wrap_at_the_type_width() {
    let mut b = ArrowVectorBuilder::new(ConcreteType::UInt8, 2);
    b.set(0, Some(ArrowValue::UInt8Type(200)));
    b.set(1, Some(ArrowValue::UInt8Type(100)));
    let col = b.build();
    let mut sum = Accumulator::new(AggregateOp::Sum);
    sum.update(&col).unwrap();
    assert_eq!(sum.final_value(), ArrowValue::UInt8Type(44));
}

#[test]
fn aggregate_errors() {
    // Summing booleans or strings is undefined.
    let mut b = ArrowVectorBuilder::new(ConcreteType::Boolean, 1);
    b.set(0, Some(ArrowValue::BooleanType(true)));
    let col = b.build();
    let mut sum = Accumulator::new(AggregateOp::Sum);
    assert!(matches!(sum.update(&col), Err(EngineError::UnsupportedType)));

    // A column of another type than the running state is a mismatch.
    let mut min = Accumulator::new(AggregateOp::Min);
    min.update(&int64_column(&[3])).unwrap();
    let mut b2 = ArrowVectorBuilder::new(ConcreteType::Int8, 1);
    b2.set(0, Some(ArrowValue::Int8Type(1)));
    assert!(matches!(
        min.update(&b2.build()),
        Err(EngineError::TypeMismatch)
    ));
    // The failed update left the state alone.
    assert_eq!(min.final_value(), ArrowValue::Int64Type(3));
}

#[test]
fn aggregate_expressions_expose_their_input() {
    let s = sum_expression();
    let e = s.input_expression();
    assert!(matches!(
        e,
        unakitesql::expressions::Expression::Column(c) if c.i == 0
    ));
    let acc = max_expression().create_accumulator();
    assert_eq!(acc.op, AggregateOp::Max);
    assert!(acc.value.is_none());
}
