use unakitesql::builder::ArrowVectorBuilder;
use unakitesql::column_vector::{ColumnVector, LiteralValueVector};
use unakitesql::record_batch::RecordBatch;
use unakitesql::schema::{Field, Schema};
use unakitesql::value::{ArrowValue, ConcreteType};

#[test]
fn build_int64_vector() {
    let size = 10;
    let mut b = ArrowVectorBuilder::new(ConcreteType::Int64, size);
    for i in 0..size {
        b.set(i, Some(ArrowValue::Int64Type(i as i64)));
    }
    let v = b.build();

    let v_size = v.size();

    assert_eq!(size, v_size);

    for i in 0..v_size {
        let v_value = v.get_value(i);

        if let ArrowValue::Int64Type(int_value) = v_value {
            assert_eq!(i as i64, int_value);
        }
    }
}

#[test]
fn builder_round_trip_with_nulls() {
    // Staging values by position, out of order, and reading them back
    // reproduces the staged values exactly; absent slots stay null.
    let mut b = ArrowVectorBuilder::new(ConcreteType::Int32, 4);
    b.set(2, Some(ArrowValue::Int32Type(-7)));
    b.set(0, Some(ArrowValue::Int32Type(41)));
    b.set(3, None);
    let v = b.build();
    assert_eq!(v.size(), 4);
    assert_eq!(v.get_type(), ConcreteType::Int32);
    assert_eq!(v.get_value_inner(0), Some(ArrowValue::Int32Type(41)));
    assert_eq!(v.get_value_inner(1), None);
    assert_eq!(v.get_value_inner(2), Some(ArrowValue::Int32Type(-7)));
    assert_eq!(v.get_value_inner(3), None);
}

#[test]
fn builder_drops_mismatched_types_to_null() {
    // A value of the wrong type is staged as null, never stored: the
    // builder is total by design.
    let mut b = ArrowVectorBuilder::new(ConcreteType::Int8, 2);
    b.set(0, Some(ArrowValue::Int16Type(300)));
    b.set(1, Some(ArrowValue::Int8Type(5)));
    let v = b.build();
    assert_eq!(v.get_value_inner(0), None);
    assert_eq!(v.get_value_inner(1), Some(ArrowValue::Int8Type(5)));
}

#[test]
fn builder_set_all_round_trip() {
    let mut b = ArrowVectorBuilder::new(ConcreteType::UInt16, 3);
    let staged = vec![
        Some(ArrowValue::UInt16Type(9)),
        None,
        Some(ArrowValue::UInt16Type(65535)),
    ];
    b.set_all(&staged);
    let v = b.build();
    assert_eq!(v.size(), 3);
    assert_eq!(v.get_value_inner(0), Some(ArrowValue::UInt16Type(9)));
    assert_eq!(v.get_value_inner(1), None);
    assert_eq!(v.get_value_inner(2), Some(ArrowValue::UInt16Type(65535)));
}

#[test]
fn literal_vector_broadcasts() {
    let v = ColumnVector::Literal(LiteralValueVector {
        arrow_type: ConcreteType::Utf8,
        value: Some(ArrowValue::StringType(String::from("hi"))),
        size: 5,
    });
    assert_eq!(v.size(), 5);
    for i in 0..5 {
        assert_eq!(v.get_value(i), ArrowValue::StringType(String::from("hi")));
    }
}

#[test]
fn record_batch_rejects_unequal_columns() {
    // Binding columns of different lengths must fail deterministically,
    // never truncate silently.
    let schema = Schema {
        fields: vec![
            Field::new("a", ConcreteType::Int8),
            Field::new("b", ConcreteType::Int8),
        ],
    };
    let mut b1 = ArrowVectorBuilder::new(ConcreteType::Int8, 2);
    b1.set(0, Some(ArrowValue::Int8Type(1)));
    b1.set(1, Some(ArrowValue::Int8Type(2)));
    let mut b2 = ArrowVectorBuilder::new(ConcreteType::Int8, 3);
    b2.set(0, Some(ArrowValue::Int8Type(3)));
    let c1 = b1.build();
    let c2 = b2.build();
    assert!(RecordBatch::new(schema, vec![c1, c2]).is_none());
}

#[test]
fn record_batch_rejects_wrong_column_count() {
    let schema = Schema {
        fields: vec![
            Field::new("a", ConcreteType::Int8),
            Field::new("b", ConcreteType::Int8),
        ],
    };
    let mut b1 = ArrowVectorBuilder::new(ConcreteType::Int8, 1);
    b1.set(0, Some(ArrowValue::Int8Type(1)));
    let c1 = b1.build();
    assert!(RecordBatch::new(schema, vec![c1]).is_none());
}

#[test]
fn record_batch_accessors() {
    let schema = Schema {
        fields: vec![Field::new("a", ConcreteType::UInt8)],
    };
    let mut b = ArrowVectorBuilder::new(ConcreteType::UInt8, 2);
    b.set(0, Some(ArrowValue::UInt8Type(10)));
    b.set(1, Some(ArrowValue::UInt8Type(20)));
    let batch = RecordBatch::new(schema, vec![b.build()]).unwrap();
    assert_eq!(batch.row_count(), 2);
    assert_eq!(batch.column_count(), 1);
    let col = batch.field(0);
    assert_eq!(col.get_value(1), ArrowValue::UInt8Type(20));
}
