use unakitesql::builder::{build_vector, ArrowVectorBuilder, TypeVector};
use unakitesql::column_vector::ColumnVector;
use unakitesql::errors::EngineError;
use unakitesql::expressions::{
    gteq, lt, BooleanExpression, BooleanOp, CastExpression, ColumnExpression, Expression,
    LiteralExpression, LiteralStringExpression,
};
use unakitesql::record_batch::RecordBatch;
use unakitesql::schema::{Field, Schema};
use unakitesql::value::{ArrowValue, ConcreteType};

fn int8_column(values: &[i8]) -> ColumnVector {
    let mut b = ArrowVectorBuilder::new(ConcreteType::Int8, values.len());
    for (i, v) in values.iter().enumerate() {
        b.set(i, Some(ArrowValue::Int8Type(*v)));
    }
    b.build()
}

fn expect_bool(col: &ColumnVector, i: usize) -> bool {
    match col.get_value(i) {
        ArrowValue::BooleanType(v) => v,
        other => panic!("expected a boolean cell, got {:?}", other),
    }
}

#[test]
fn gteq_bytes() {
    let a_v: Vec<i8> = vec![10, 20, 30, 40, 50, 60, 70, 80, i8::MAX, i8::MIN];
    let a_value = TypeVector::Int8(a_v.clone());

    let b_v: Vec<i8> = vec![10, 30, 20, 40, 50, 70, 60, 80, i8::MIN, i8::MAX];
    let b_value = TypeVector::Int8(b_v.clone());

    let schema = Schema {
        fields: vec![
            Field::new("a", ConcreteType::Int8),
            Field::new("b", ConcreteType::Int8),
        ],
    };

    let batch = RecordBatch::new(
        schema,
        vec![
            build_vector(ConcreteType::Int8, &a_value),
            build_vector(ConcreteType::Int8, &b_value),
        ],
    )
    .unwrap();

    let expr = gteq();

    let res = expr.evaluate(&batch).unwrap();

    for i in 0..res.size() {
        let value = expect_bool(&res, i);
        assert_eq!(a_v[i] >= b_v[i], value);
    }
}

#[test]
fn gteq_shorts() {
    let a_value: Vec<i16> = vec![
        1000,
        2000,
        3000,
        4000,
        5000,
        6000,
        7000,
        8000,
        i16::MAX,
        i16::MIN,
    ];
    let mut a = ArrowVectorBuilder::new(ConcreteType::Int16, a_value.len());
    for (i, value) in a_value.iter().enumerate() {
        a.set(i, Some(ArrowValue::Int16Type(*value)));
    }

    let b_value: Vec<i16> = vec![
        1000,
        3000,
        2000,
        4000,
        5000,
        7000,
        6000,
        8000,
        i16::MIN,
        i16::MAX,
    ];
    let mut b = ArrowVectorBuilder::new(ConcreteType::Int16, b_value.len());
    for (i, value) in b_value.iter().enumerate() {
        b.set(i, Some(ArrowValue::Int16Type(*value)));
    }

    let a_v = a.build();
    let b_v = b.build();

    let vec_field = vec![
        Field::new("a", ConcreteType::Int16),
        Field::new("b", ConcreteType::Int16),
    ];
    let schema = Schema { fields: vec_field };

    let batch = RecordBatch::new(schema, vec![a_v, b_v]).unwrap();

    let expr = BooleanExpression {
        op: BooleanOp::GtEq,
        l: Expression::Column(ColumnExpression { i: 0 }),
        r: Expression::Column(ColumnExpression { i: 1 }),
    };

    let res = expr.evaluate(&batch).unwrap();

    for i in 0..res.size() {
        let value = expect_bool(&res, i);
        assert_eq!(a_value[i] >= b_value[i], value);
    }
}

#[test]
fn gteq_string() {
    let a_value = vec![
        "aac", "bbb", "bbc", "ccc", "ddd", "eee", "fff", "yya", "yyb", "zzz",
    ];
    let mut a = ArrowVectorBuilder::new(ConcreteType::Utf8, a_value.len());
    for (i, value) in a_value.iter().enumerate() {
        a.set(i, Some(ArrowValue::StringType(value.to_string())));
    }

    let b_value = vec![
        "aab", "bbc", "bbb", "ccc", "ddd", "eee", "fff", "yya", "yyb", "aaa",
    ];
    let mut b = ArrowVectorBuilder::new(ConcreteType::Utf8, b_value.len());
    for (i, value) in b_value.iter().enumerate() {
        b.set(i, Some(ArrowValue::StringType(value.to_string())));
    }

    let a_v = a.build();
    let b_v = b.build();

    let vec_field = vec![
        Field::new("a", ConcreteType::Utf8),
        Field::new("b", ConcreteType::Utf8),
    ];
    let schema = Schema { fields: vec_field };

    let batch = RecordBatch::new(schema, vec![a_v, b_v]).unwrap();

    let expr = BooleanExpression {
        op: BooleanOp::GtEq,
        l: Expression::Column(ColumnExpression { i: 0 }),
        r: Expression::Column(ColumnExpression { i: 1 }),
    };

    let res = expr.evaluate(&batch).unwrap();

    for i in 0..res.size() {
        let value = expect_bool(&res, i);
        assert_eq!(a_value[i] >= b_value[i], value);
    }
}

#[test]
fn literal_expression_broadcasts() {
    let schema = Schema {
        fields: vec![Field::new("a", ConcreteType::Int8)],
    };
    let batch = RecordBatch::new(schema, vec![int8_column(&[1, 2, 3])]).unwrap();
    let expr = Expression::Literal(LiteralExpression::Int64(99));
    let col = expr.evaluate(&batch).unwrap();
    assert_eq!(col.size(), 3);
    assert_eq!(col.get_type(), ConcreteType::Int64);
    for i in 0..3 {
        assert_eq!(col.get_value(i), ArrowValue::Int64Type(99));
    }
}

#[test]
fn comparison_with_string_literal() {
    let cities = ["London", "Leeds", "London"];
    let mut b = ArrowVectorBuilder::new(ConcreteType::Utf8, cities.len());
    for (i, c) in cities.iter().enumerate() {
        b.set(i, Some(ArrowValue::StringType(c.to_string())));
    }
    let schema = Schema {
        fields: vec![Field::new("city", ConcreteType::Utf8)],
    };
    let batch = RecordBatch::new(schema, vec![b.build()]).unwrap();
    let expr = BooleanExpression {
        op: BooleanOp::Eq,
        l: Expression::Column(ColumnExpression { i: 0 }),
        r: Expression::Literal(LiteralExpression::String(LiteralStringExpression {
            value: String::from("London"),
        })),
    };
    let res = expr.evaluate(&batch).unwrap();
    assert!(expect_bool(&res, 0));
    assert!(!expect_bool(&res, 1));
    assert!(expect_bool(&res, 2));
}

#[test]
fn boolean_operands_must_share_a_type() {
    let schema = Schema {
        fields: vec![
            Field::new("a", ConcreteType::Int8),
            Field::new("b", ConcreteType::Utf8),
        ],
    };
    let mut sb = ArrowVectorBuilder::new(ConcreteType::Utf8, 1);
    sb.set(0, Some(ArrowValue::StringType(String::from("x"))));
    let batch = RecordBatch::new(schema, vec![int8_column(&[1]), sb.build()]).unwrap();
    let expr = lt();
    assert!(matches!(expr.evaluate(&batch), Err(EngineError::TypeMismatch)));
}

#[test]
fn conjunction_requires_boolean_columns() {
    let schema = Schema {
        fields: vec![
            Field::new("a", ConcreteType::Int8),
            Field::new("b", ConcreteType::Int8),
        ],
    };
    let batch =
        RecordBatch::new(schema, vec![int8_column(&[1]), int8_column(&[1])]).unwrap();
    let expr = BooleanExpression {
        op: BooleanOp::And,
        l: Expression::Column(ColumnExpression { i: 0 }),
        r: Expression::Column(ColumnExpression { i: 1 }),
    };
    assert!(matches!(expr.evaluate(&batch), Err(EngineError::TypeMismatch)));
}

#[test]
fn conjunction_and_disjunction_elementwise() {
    let mut a = ArrowVectorBuilder::new(ConcreteType::Boolean, 4);
    let mut b = ArrowVectorBuilder::new(ConcreteType::Boolean, 4);
    let pairs = [(true, true), (true, false), (false, true), (false, false)];
    for (i, (x, y)) in pairs.iter().enumerate() {
        a.set(i, Some(ArrowValue::BooleanType(*x)));
        b.set(i, Some(ArrowValue::BooleanType(*y)));
    }
    let schema = Schema {
        fields: vec![
            Field::new("a", ConcreteType::Boolean),
            Field::new("b", ConcreteType::Boolean),
        ],
    };
    let batch = RecordBatch::new(schema, vec![a.build(), b.build()]).unwrap();
    let conj = unakitesql::expressions::and().evaluate(&batch).unwrap();
    let disj = unakitesql::expressions::or().evaluate(&batch).unwrap();
    for (i, (x, y)) in pairs.iter().enumerate() {
        assert_eq!(expect_bool(&conj, i), *x && *y);
        assert_eq!(expect_bool(&disj, i), *x || *y);
    }
}

#[test]
fn null_operands_give_null_results() {
    let mut a = ArrowVectorBuilder::new(ConcreteType::Int8, 2);
    a.set(0, Some(ArrowValue::Int8Type(1)));
    let mut b = ArrowVectorBuilder::new(ConcreteType::Int8, 2);
    b.set(0, Some(ArrowValue::Int8Type(1)));
    b.set(1, Some(ArrowValue::Int8Type(1)));
    let schema = Schema {
        fields: vec![
            Field::new("a", ConcreteType::Int8),
            Field::new("b", ConcreteType::Int8),
        ],
    };
    let batch = RecordBatch::new(schema, vec![a.build(), b.build()]).unwrap();
    let res = unakitesql::expressions::eq().evaluate(&batch).unwrap();
    assert_eq!(res.get_value_inner(0), Some(ArrowValue::BooleanType(true)));
    assert_eq!(res.get_value_inner(1), None);
}

#[test]
fn column_reference_out_of_bounds() {
    let schema = Schema {
        fields: vec![Field::new("a", ConcreteType::Int8)],
    };
    let batch = RecordBatch::new(schema, vec![int8_column(&[1])]).unwrap();
    let expr = Expression::Column(ColumnExpression { i: 3 });
    assert!(matches!(
        expr.evaluate(&batch),
        Err(EngineError::IndexOutOfBounds)
    ));
}

#[test]
fn cast_float_to_int32() {
    let a_floats: Vec<f32> = vec![
        36.54f32,
        28.31f32,
        45.15f32,
        43.4f32,
        36.26f32,
        12.74f32,
        17.64f32,
        44.16f32,
        f32::MAX,
        f32::MIN,
    ];
    let a_value = TypeVector::Float(a_floats.iter().map(|v| v.to_bits()).collect());

    let schema = Schema {
        fields: vec![Field::new("a", ConcreteType::Float32)],
    };

    let batch = RecordBatch::new(
        schema,
        vec![build_vector(ConcreteType::Float32, &a_value)],
    )
    .unwrap();

    let expr = CastExpression::new(ColumnExpression { i: 0 }, ConcreteType::Int32);

    let result = expr.evaluate(&batch).unwrap();

    println!("{:?}", result.get_value_inner(0));
    for (i, v) in a_floats.iter().enumerate() {
        let expected = v.round() as i32;
        assert_eq!(result.get_value(i), ArrowValue::Int32Type(expected));
    }
}

#[test]
fn cast_byte_to_string() {
    let a_bytes: Vec<i8> = vec![
        36i8,
        28i8,
        45i8,
        4i8,
        36i8,
        12i8,
        17i8,
        44i8,
        i8::MAX,
        i8::MIN,
    ];
    let a_value = TypeVector::Int8(a_bytes.clone());

    let schema = Schema {
        fields: vec![Field::new("a", ConcreteType::Int8)],
    };

    let batch = RecordBatch::new(schema, vec![build_vector(ConcreteType::Int8, &a_value)])
        .unwrap();

    let expr = CastExpression::new(ColumnExpression { i: 0 }, ConcreteType::Utf8);

    let result = expr.evaluate(&batch).unwrap();

    println!("{:?}", result.get_value_inner(0));
    for (i, v) in a_bytes.iter().enumerate() {
        assert_eq!(
            result.get_value(i),
            ArrowValue::StringType(format!("{}", v))
        );
    }
}

#[test]
fn cast_expression_rejects_undefined_targets() {
    let schema = Schema {
        fields: vec![Field::new("a", ConcreteType::Int8)],
    };
    let batch = RecordBatch::new(schema, vec![int8_column(&[1])]).unwrap();
    let expr = CastExpression::new(ColumnExpression { i: 0 }, ConcreteType::Float64);
    assert!(matches!(
        expr.evaluate(&batch),
        Err(EngineError::UnsupportedType)
    ));
}
