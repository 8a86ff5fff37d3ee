use unakitesql::builder::ArrowVectorBuilder;
use unakitesql::column_vector::ColumnVector;
use unakitesql::errors::EngineError;
use unakitesql::expressions::{
    BooleanExpression, BooleanOp, ColumnExpression, Expression, LiteralExpression,
    LiteralStringExpression,
};
use unakitesql::physical_plan::{
    InMemoryDataSource, PhysicaPlan, ProjectionExec, ScanExec, SelectionExec,
};
use unakitesql::record_batch::RecordBatch;
use unakitesql::schema::{Field, Schema};
use unakitesql::value::{ArrowValue, ConcreteType};

fn string_column(values: &[&str]) -> ColumnVector {
    let mut b = ArrowVectorBuilder::new(ConcreteType::Utf8, values.len());
    for (i, v) in values.iter().enumerate() {
        b.set(i, Some(ArrowValue::StringType(v.to_string())));
    }
    b.build()
}

fn double_column(values: &[f64]) -> ColumnVector {
    let mut b = ArrowVectorBuilder::new(ConcreteType::Float64, values.len());
    for (i, v) in values.iter().enumerate() {
        b.set(i, Some(ArrowValue::DoubleType(v.to_bits())));
    }
    b.build()
}

fn cities_source() -> InMemoryDataSource {
    let schema = Schema {
        fields: vec![
            Field::new("city", ConcreteType::Utf8),
            Field::new("lat", ConcreteType::Float64),
        ],
    };
    let batch = RecordBatch::new(
        Schema {
            fields: vec![
                Field::new("city", ConcreteType::Utf8),
                Field::new("lat", ConcreteType::Float64),
            ],
        },
        vec![
            string_column(&["London", "Leeds", "London"]),
            double_column(&[51.5, 53.8, 51.5]),
        ],
    )
    .unwrap();
    InMemoryDataSource {
        schema,
        batches: vec![batch],
    }
}

#[test]
fn select_rejects_duplicates_and_missing_names() {
    let schema = Schema {
        fields: vec![
            Field::new("x", ConcreteType::Int8),
            Field::new("x", ConcreteType::Int8),
            Field::new("a", ConcreteType::Int8),
            Field::new("b", ConcreteType::Utf8),
        ],
    };
    let dup = vec![String::from("x"), String::from("x")];
    assert!(matches!(
        schema.select(&dup),
        Err(EngineError::AmbiguousOrMissingField)
    ));
    // A repeated request fails even when the schema holds the name once: a
    // selection never produces a duplicated field.
    let repeat = vec![String::from("a"), String::from("a")];
    assert!(matches!(
        schema.select(&repeat),
        Err(EngineError::AmbiguousOrMissingField)
    ));
    let missing = vec![String::from("missing")];
    assert!(matches!(
        schema.select(&missing),
        Err(EngineError::AmbiguousOrMissingField)
    ));
    let good = vec![String::from("b"), String::from("a")];
    let sel = schema.select(&good).unwrap();
    assert_eq!(sel.len(), 2);
    assert_eq!(sel.fields[0].name, "b");
    assert_eq!(sel.fields[0].data_type, ConcreteType::Utf8);
    assert_eq!(sel.fields[1].name, "a");
    assert_eq!(sel.fields[1].data_type, ConcreteType::Int8);
}

#[test]
fn schema_project_reorders_fields() {
    let schema = Schema {
        fields: vec![
            Field::new("a", ConcreteType::Int8),
            Field::new("b", ConcreteType::Utf8),
        ],
    };
    let p = schema.project(&vec![1, 0, 1]);
    assert_eq!(p.len(), 3);
    assert_eq!(p.fields[0].name, "b");
    assert_eq!(p.fields[1].name, "a");
    assert_eq!(p.fields[2].name, "b");
}

#[test]
fn scan_projects_columns_by_name() {
    let ds = cities_source();
    let batches = ds.scan(&vec![String::from("lat")]).unwrap();
    assert_eq!(batches.len(), 1);
    assert_eq!(batches[0].column_count(), 1);
    assert_eq!(batches[0].row_count(), 3);
    assert_eq!(batches[0].schema.fields[0].name, "lat");
    assert_eq!(
        batches[0].field(0).get_value(1),
        ArrowValue::DoubleType(53.8f64.to_bits())
    );
}

#[test]
fn scan_fails_on_missing_name() {
    let ds = cities_source();
    assert!(matches!(
        ds.scan(&vec![String::from("lng")]),
        Err(EngineError::AmbiguousOrMissingField)
    ));
}

#[test]
fn scan_fails_on_repeated_name() {
    let ds = cities_source();
    assert!(matches!(
        ds.scan(&vec![String::from("lat"), String::from("lat")]),
        Err(EngineError::AmbiguousOrMissingField)
    ));
}

#[test]
fn three_city_pipeline_keeps_london_rows_in_order() {
    // A selection on `city == "London"` followed by a projection of `city`
    // yields two rows, both "London", in their original order.
    let ds = cities_source();
    let scan = PhysicaPlan::Scan(ScanExec {
        ds,
        projection: Vec::new(),
    });
    let predicate = Expression::Boolean(Box::new(BooleanExpression {
        op: BooleanOp::Eq,
        l: Expression::Column(ColumnExpression { i: 0 }),
        r: Expression::Literal(LiteralExpression::String(LiteralStringExpression {
            value: String::from("London"),
        })),
    }));
    let selected = PhysicaPlan::Selection(SelectionExec {
        input: Box::new(scan),
        expr: predicate,
    });
    let plan = PhysicaPlan::Projection(ProjectionExec {
        input: Box::new(selected),
        schema: Schema {
            fields: vec![Field::new("city", ConcreteType::Utf8)],
        },
        expr: vec![Expression::Column(ColumnExpression { i: 0 })],
    });

    let out_schema = plan.schema().unwrap();
    assert_eq!(out_schema.len(), 1);
    assert_eq!(out_schema.fields[0].name, "city");

    let batches = plan.execute().unwrap();
    assert_eq!(batches.len(), 1);
    let batch = &batches[0];
    assert_eq!(batch.column_count(), 1);
    assert_eq!(batch.row_count(), 2);
    assert_eq!(
        batch.field(0).get_value(0),
        ArrowValue::StringType(String::from("London"))
    );
    assert_eq!(
        batch.field(0).get_value(1),
        ArrowValue::StringType(String::from("London"))
    );
}

#[test]
fn selection_filters_every_column() {
    let ds = cities_source();
    let scan = PhysicaPlan::Scan(ScanExec {
        ds,
        projection: Vec::new(),
    });
    let predicate = Expression::Boolean(Box::new(BooleanExpression {
        op: BooleanOp::Eq,
        l: Expression::Column(ColumnExpression { i: 0 }),
        r: Expression::Literal(LiteralExpression::String(LiteralStringExpression {
            value: String::from("Leeds"),
        })),
    }));
    let plan = PhysicaPlan::Selection(SelectionExec {
        input: Box::new(scan),
        expr: predicate,
    });
    let batches = plan.execute().unwrap();
    assert_eq!(batches[0].row_count(), 1);
    assert_eq!(batches[0].column_count(), 2);
    assert_eq!(
        batches[0].field(0).get_value(0),
        ArrowValue::StringType(String::from("Leeds"))
    );
    assert_eq!(
        batches[0].field(1).get_value(0),
        ArrowValue::DoubleType(53.8f64.to_bits())
    );
}

#[test]
fn selection_demands_a_boolean_predicate() {
    let ds = cities_source();
    let plan = PhysicaPlan::Selection(SelectionExec {
        input: Box::new(PhysicaPlan::Scan(ScanExec {
            ds,
            projection: Vec::new(),
        })),
        expr: Expression::Column(ColumnExpression { i: 0 }),
    });
    assert!(matches!(plan.execute(), Err(EngineError::TypeMismatch)));
}

#[test]
fn physical_plans_render_as_an_indented_tree() {
    let ds = cities_source();
    let plan = PhysicaPlan::Selection(SelectionExec {
        input: Box::new(PhysicaPlan::Scan(ScanExec {
            ds,
            projection: Vec::new(),
        })),
        expr: Expression::Column(ColumnExpression { i: 0 }),
    });
    assert_eq!(plan.format_plan(), "SelectionExec\n\tScanExec\n");
}

#[test]
fn operators_report_their_children() {
    let ds = cities_source();
    let scan = PhysicaPlan::Scan(ScanExec {
        ds,
        projection: Vec::new(),
    });
    assert_eq!(scan.children().len(), 0);
    let sel = PhysicaPlan::Selection(SelectionExec {
        input: Box::new(scan),
        expr: Expression::Column(ColumnExpression { i: 0 }),
    });
    assert_eq!(sel.children().len(), 1);
}
