use unakitesql::builder::ArrowVectorBuilder;
use unakitesql::column_vector::ColumnVector;
use unakitesql::logical_plan::{
    count, max, min, numeric_lit_expr_to_usize, Aggregate, Column, Expr, ExprRef, Join,
    JoinType, Limit, LiteralExpression, LiteralString, LiteralUInt64, NumericExpression,
    LogicalPlan, Projection, Scan, Selection, AsAlias,
};
use unakitesql::physical_plan::InMemoryDataSource;
use unakitesql::record_batch::RecordBatch;
use unakitesql::schema::{Field, Schema};
use unakitesql::value::{ArrowValue, ConcreteType};

fn cities_schema() -> Schema {
    Schema {
        fields: vec![
            Field::new("city", ConcreteType::Utf8),
            Field::new("lat", ConcreteType::Float64),
            Field::new("lng", ConcreteType::Float64),
        ],
    }
}

fn string_column(values: &[&str]) -> ColumnVector {
    let mut b = ArrowVectorBuilder::new(ConcreteType::Utf8, values.len());
    for (i, v) in values.iter().enumerate() {
        b.set(i, Some(ArrowValue::StringType(v.to_string())));
    }
    b.build()
}

fn double_column(values: &[f64]) -> ColumnVector {
    let mut b = ArrowVectorBuilder::new(ConcreteType::Float64, values.len());
    for (i, v) in values.iter().enumerate() {
        b.set(i, Some(ArrowValue::DoubleType(v.to_bits())));
    }
    b.build()
}

fn cities() -> LogicalPlan {
    let batch = RecordBatch::new(
        cities_schema(),
        vec![
            string_column(&["London", "Leeds"]),
            double_column(&[51.5, 53.8]),
            double_column(&[-0.1, -1.5]),
        ],
    )
    .unwrap();
    let data = InMemoryDataSource {
        schema: cities_schema(),
        batches: vec![batch],
    };
    LogicalPlan::ScanPlan(Scan::new(String::from("uk_cities"), data, Vec::new()))
}

fn string_literal(s: &str) -> ExprRef {
    ExprRef::new(Box::new(Expr::LiteralExpr(LiteralExpression::StringExpr(
        LiteralString {
            value: String::from(s),
        },
    ))))
}

#[test]
fn build_data_frame() {
    // A filter, then a projection of city, lat and lng.
    let filtered = LogicalPlan::SelectionPlan(Selection {
        input: Box::new(cities()),
        expr: ExprRef::new(Box::new(Expr::EqOpExpr(
            unakitesql::logical_plan::column("city").state,
            string_literal("Uk").state,
        ))),
    });
    let df = LogicalPlan::ProjectionPlan(Projection {
        input: Box::new(filtered),
        expr: vec![unakitesql::logical_plan::column("city"), unakitesql::logical_plan::column("lat"), unakitesql::logical_plan::column("lng")],
    });
    println!("{}", unakitesql::logical_plan::format_plan(&df));
    let schema = df.schema().unwrap();
    assert_eq!(schema.len(), 3);
    assert_eq!(schema.fields[0].name, "city");
    assert_eq!(schema.fields[1].name, "lat");
    assert_eq!(schema.fields[1].data_type, ConcreteType::Float64);
    assert_eq!(schema.fields[2].name, "lng");
}

#[test]
fn plans_render_as_an_indented_tree() {
    let df = LogicalPlan::ProjectionPlan(Projection {
        input: Box::new(LogicalPlan::SelectionPlan(Selection {
            input: Box::new(cities()),
            expr: ExprRef::new(Box::new(Expr::EqOpExpr(
                unakitesql::logical_plan::column("city").state,
                string_literal("Uk").state,
            ))),
        })),
        expr: vec![unakitesql::logical_plan::column("city")],
    });
    let text = unakitesql::logical_plan::format_plan(&df);
    assert_eq!(text, "Projection\n\tSelection\n\t\tScan: uk_cities\n");

    let limited = LogicalPlan::LimitPlan(Limit {
        input: Box::new(cities()),
        limit: 2,
    });
    assert_eq!(
        unakitesql::logical_plan::format_plan(&limited),
        "Limit: 2\n\tScan: uk_cities\n"
    );
}

#[test]
fn aggregate_data_frame() {
    // Grouping by city with min(lat), count(lat) and max(lng): the derived
    // schema lists the group key, then the aggregates.
    let df = LogicalPlan::AggregatePlan(Aggregate {
        input: Box::new(cities()),
        group_expr: vec![unakitesql::logical_plan::column("city")],
        aggregate_expr: vec![min("lat"), count("lat"), max("lng")],
    });
    let schema = df.schema().unwrap();
    assert_eq!(schema.len(), 4);
    assert_eq!(schema.fields[0].name, "city");
    assert_eq!(schema.fields[1].name, "Min");
    assert_eq!(schema.fields[1].data_type, ConcreteType::Float64);
    assert_eq!(schema.fields[2].name, "COUNT");
    assert_eq!(schema.fields[2].data_type, ConcreteType::Int32);
    assert_eq!(schema.fields[3].name, "Max");
}

#[test]
fn alias_renames_a_field() {
    let aliased = unakitesql::logical_plan::column("lat").alias("latitude");
    let df = LogicalPlan::ProjectionPlan(Projection {
        input: Box::new(cities()),
        expr: vec![aliased],
    });
    let schema = df.schema().unwrap();
    assert_eq!(schema.fields[0].name, "latitude");
    assert_eq!(schema.fields[0].data_type, ConcreteType::Float64);
}

#[test]
fn limit_keeps_the_input_schema() {
    let lit = Expr::LiteralExpr(LiteralExpression::Numeric(
        NumericExpression::UInteger64Expr(LiteralUInt64 { value: 2 }),
    ));
    let n = numeric_lit_expr_to_usize(&lit);
    assert_eq!(n, 2);
    let df = LogicalPlan::LimitPlan(Limit {
        input: Box::new(cities()),
        limit: n,
    });
    let schema = df.schema().unwrap();
    assert_eq!(schema.len(), 3);
    assert_eq!(schema.fields[0].name, "city");
}

fn mini_source(fields: Vec<Field>) -> LogicalPlan {
    let schema = Schema {
        fields: fields.iter().map(|f| Field::new(&f.name, f.data_type)).collect(),
    };
    let columns: Vec<ColumnVector> = fields
        .iter()
        .map(|f| ArrowVectorBuilder::new(f.data_type, 0).build())
        .collect();
    let batch = RecordBatch::new(Schema { fields }, columns).unwrap();
    let data = InMemoryDataSource {
        schema,
        batches: vec![batch],
    };
    LogicalPlan::ScanPlan(Scan::new(String::from("mini"), data, Vec::new()))
}

#[test]
fn join_schema_keeps_shared_keys_once() {
    // Joining {a, b} with {a, c} on a = a: left fields, then the right
    // side's fields without the shared key — [a, b, c].
    let left = mini_source(vec![
        Field::new("a", ConcreteType::Int8),
        Field::new("b", ConcreteType::Int8),
    ]);
    let right = mini_source(vec![
        Field::new("a", ConcreteType::Int8),
        Field::new("c", ConcreteType::Utf8),
    ]);
    let inner = LogicalPlan::JoinPlan(Join {
        left: Box::new(left),
        right: Box::new(right),
        join_type: JoinType::Inner,
        on: vec![(String::from("a"), String::from("a"))],
    });
    let schema = inner.schema().unwrap();
    assert_eq!(schema.len(), 3);
    assert_eq!(schema.fields[0].name, "a");
    assert_eq!(schema.fields[1].name, "b");
    assert_eq!(schema.fields[2].name, "c");

    // A left join keeps the shared key on the right side instead.
    let lleft = LogicalPlan::JoinPlan(Join {
        left: Box::new(mini_source(vec![
            Field::new("a", ConcreteType::Int8),
            Field::new("b", ConcreteType::Int8),
        ])),
        right: Box::new(mini_source(vec![
            Field::new("a", ConcreteType::Int8),
            Field::new("c", ConcreteType::Utf8),
        ])),
        join_type: JoinType::Left,
        on: vec![(String::from("a"), String::from("a"))],
    });
    let schema2 = lleft.schema().unwrap();
    assert_eq!(schema2.len(), 3);
    assert_eq!(schema2.fields[0].name, "b");
    assert_eq!(schema2.fields[1].name, "a");
    assert_eq!(schema2.fields[2].name, "c");

    // Join keys paired under different names are not shared: both sides
    // survive whole.
    let unshared = LogicalPlan::JoinPlan(Join {
        left: Box::new(cities()),
        right: Box::new(cities()),
        join_type: JoinType::Left,
        on: vec![(String::from("city"), String::from("lat"))],
    });
    let schema3 = unshared.schema().unwrap();
    assert_eq!(schema3.len(), 6);
    assert_eq!(schema3.fields[0].name, "city");
    assert_eq!(schema3.fields[3].name, "city");
}

#[test]
fn multiply_and_alias() {
    // Filter on city = "London", project city and lat, then filter on
    // (lat * 1000.75) under the alias "alias": the aliased product names
    // the derived field.
    let filtered = LogicalPlan::SelectionPlan(Selection {
        input: Box::new(cities()),
        expr: ExprRef::new(Box::new(Expr::EqOpExpr(
            unakitesql::logical_plan::column("city").state,
            string_literal("London").state,
        ))),
    });
    let projected = LogicalPlan::ProjectionPlan(Projection {
        input: Box::new(filtered),
        expr: vec![
            unakitesql::logical_plan::column("city"),
            unakitesql::logical_plan::column("lat"),
        ],
    });
    let product = ExprRef::new(Box::new(Expr::MathExpr(
        unakitesql::logical_plan::MathExpression::MulExpr(
            unakitesql::logical_plan::column("lat").state,
            ExprRef::new(Box::new(Expr::LiteralExpr(LiteralExpression::Numeric(
                NumericExpression::FloatExpr(unakitesql::logical_plan::LiteralFloat {
                    value: 1000.75f32.to_bits(),
                }),
            ))))
            .state,
        ),
    )));
    let df = LogicalPlan::SelectionPlan(Selection {
        input: Box::new(projected),
        expr: product.alias("alias"),
    });
    let schema = df.schema().unwrap();
    assert_eq!(schema.len(), 2);
    assert_eq!(schema.fields[0].name, "city");
    assert_eq!(schema.fields[1].name, "lat");
}

#[test]
fn limit_and_join() {
    // An aggregation of max(lng) by state on one side; a projection of city
    // and lat limited to 2 rows on the other; joined left on the pair
    // ("City", "Lat"). The sides' schemas still derive per their own rules:
    // the missing "state" column surfaces as a recoverable error on the
    // aggregated side, and the join propagates it.
    let df_two = LogicalPlan::AggregatePlan(Aggregate {
        input: Box::new(cities()),
        group_expr: vec![unakitesql::logical_plan::column("state")],
        aggregate_expr: vec![max("lng")],
    });
    let limited = LogicalPlan::LimitPlan(Limit {
        input: Box::new(LogicalPlan::ProjectionPlan(Projection {
            input: Box::new(cities()),
            expr: vec![
                unakitesql::logical_plan::column("city"),
                unakitesql::logical_plan::column("lat"),
            ],
        })),
        limit: numeric_lit_expr_to_usize(&Expr::LiteralExpr(LiteralExpression::Numeric(
            NumericExpression::UInteger64Expr(LiteralUInt64 { value: 2 }),
        ))),
    });
    let df = LogicalPlan::JoinPlan(Join {
        left: Box::new(limited),
        right: Box::new(df_two),
        join_type: JoinType::Left,
        on: vec![(String::from("City"), String::from("Lat"))],
    });
    assert!(matches!(
        df.schema(),
        Err(unakitesql::errors::EngineError::AmbiguousOrMissingField)
    ));
}

#[test]
fn missing_column_fails_schema_derivation() {
    let df = LogicalPlan::ProjectionPlan(Projection {
        input: Box::new(cities()),
        expr: vec![unakitesql::logical_plan::column("altitude")],
    });
    assert!(matches!(
        df.schema(),
        Err(unakitesql::errors::EngineError::AmbiguousOrMissingField)
    ));
}

#[test]
fn column_index_resolves_by_position() {
    let df = LogicalPlan::ProjectionPlan(Projection {
        input: Box::new(cities()),
        expr: vec![ExprRef::new(Box::new(Expr::ColumnIndexExpr(
            unakitesql::logical_plan::ColumnIndex { i: 2 },
        )))],
    });
    let schema = df.schema().unwrap();
    assert_eq!(schema.fields[0].name, "lng");
}

#[test]
fn numeric_literal_limits_clamp() {
    let neg = Expr::LiteralExpr(LiteralExpression::Numeric(
        NumericExpression::Integer8Expr(unakitesql::logical_plan::LiteralInt8 { value: -3 }),
    ));
    assert_eq!(numeric_lit_expr_to_usize(&neg), 0);
}

#[test]
fn numeric_literal_limits_truncate_floats() {
    // A float limit literal is read as its number, truncated toward zero.
    let nearly_three = Expr::LiteralExpr(LiteralExpression::Numeric(
        NumericExpression::FloatExpr(unakitesql::logical_plan::LiteralFloat {
            value: 2.9f32.to_bits(),
        }),
    ));
    assert_eq!(numeric_lit_expr_to_usize(&nearly_three), 2);
    let negative = Expr::LiteralExpr(LiteralExpression::Numeric(
        NumericExpression::DoubleExpr(unakitesql::logical_plan::LiteralDouble {
            value: (-3.5f64).to_bits(),
        }),
    ));
    assert_eq!(numeric_lit_expr_to_usize(&negative), 0);
    let nan = Expr::LiteralExpr(LiteralExpression::Numeric(NumericExpression::FloatExpr(
        unakitesql::logical_plan::LiteralFloat {
            value: f32::NAN.to_bits(),
        },
    )));
    assert_eq!(numeric_lit_expr_to_usize(&nan), 0);
}

#[test]
fn column_helper_builds_a_reference() {
    let c = unakitesql::logical_plan::column("city");
    assert!(matches!(*c.state, Expr::ColumnExpr(Column { .. })));
}
