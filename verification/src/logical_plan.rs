//! The logical plan: a tree of relational nodes (scan, projection,
//! selection, aggregate, limit, join) and the expression forms whose only
//! duty here is schema derivation — every node and expression says which
//! field, by name and type, it will produce.

use vstd::prelude::*;
use crate::errors::EngineError;
use crate::value::ConcreteType;
use crate::numtext::{dec_int, dec_nat, fmt_i128, fmt_u64};
use crate::schema::{Field, FieldView, Schema, matches_count, selectable};
use crate::physical_plan::{InMemoryDataSource, tabs};
use crate::floats::{f32_to_int_clamped, f32_to_int_clamped_exec, f64_to_int_clamped,
    f64_to_int_clamped_exec};

verus! {

// --- Logical expressions ---

/// A reference to a column by name.
pub struct Column {
    pub name: String,
}

/// A reference to a column by position.
pub struct ColumnIndex {
    pub i: usize,
}

/// A renaming of the field an expression produces.
pub struct Alias {
    pub expr: Box<ExprRef>,
    pub alias: String,
}

/// A literal signed 8-bit value.
pub struct LiteralInt8 {
    pub value: i8,
}

/// A literal signed 16-bit value.
pub struct LiteralInt16 {
    pub value: i16,
}

/// A literal signed 32-bit value.
pub struct LiteralInt32 {
    pub value: i32,
}

/// A literal signed 64-bit value.
pub struct LiteralInt64 {
    pub value: i64,
}

/// A literal unsigned 8-bit value.
pub struct LiteralUInt8 {
    pub value: u8,
}

/// A literal unsigned 16-bit value.
pub struct LiteralUInt16 {
    pub value: u16,
}

/// A literal unsigned 32-bit value.
pub struct LiteralUInt32 {
    pub value: u32,
}

/// A literal unsigned 64-bit value.
pub struct LiteralUInt64 {
    pub value: u64,
}

/// A literal 32-bit float, carried as its IEEE 754 bit pattern.
pub struct LiteralFloat {
    pub value: u32,
}

/// A literal 64-bit float, carried as its IEEE 754 bit pattern.
pub struct LiteralDouble {
    pub value: u64,
}

/// A literal string value.
pub struct LiteralString {
    pub value: String,
}

/// The numeric literal forms.
pub enum NumericExpression {
    Integer8Expr(LiteralInt8),
    Integer16Expr(LiteralInt16),
    Integer32Expr(LiteralInt32),
    Integer64Expr(LiteralInt64),
    UInteger8Expr(LiteralUInt8),
    UInteger16Expr(LiteralUInt16),
    UInteger32Expr(LiteralUInt32),
    UInteger64Expr(LiteralUInt64),
    FloatExpr(LiteralFloat),
    DoubleExpr(LiteralDouble),
}

/// The literal forms: a string, or a number.
pub enum LiteralExpression {
    StringExpr(LiteralString),
    Numeric(NumericExpression),
}

/// A binary arithmetic operator over two subexpressions.
pub enum MathExpression {
    AddExpr(Box<Expr>, Box<Expr>),
    SubExpr(Box<Expr>, Box<Expr>),
    MulExpr(Box<Expr>, Box<Expr>),
    DivExpr(Box<Expr>, Box<Expr>),
    ModExpr(Box<Expr>, Box<Expr>),
}

/// The SUM aggregate.
pub struct AggregateSum {
    pub expr: ExprRef,
}

/// The MIN aggregate.
pub struct AggregateMin {
    pub expr: ExprRef,
}

/// The MAX aggregate.
pub struct AggregateMax {
    pub expr: ExprRef,
}

/// The AVG aggregate.
pub struct AggregateAvg {
    pub expr: ExprRef,
}

/// The COUNT aggregate.
pub struct AggregateCount {
    pub expr: ExprRef,
}

/// The COUNT DISTINCT aggregate.
pub struct AggregateCountDistinct {
    pub expr: Box<Expr>,
}

/// A logical expression: what it contributes to a schema when evaluated
/// against a particular input.
pub enum Expr {
    EqOpExpr(Box<Expr>, Box<Expr>),
    NeqExpr(Box<Expr>, Box<Expr>),
    GtExpr(Box<Expr>, Box<Expr>),
    GtEqExpr(Box<Expr>, Box<Expr>),
    LtExpr(Box<Expr>, Box<Expr>),
    LtEqExpr(Box<Expr>, Box<Expr>),
    AndExpr(Box<Expr>, Box<Expr>),
    OrExpr(Box<Expr>, Box<Expr>),
    ColumnExpr(Column),
    ColumnIndexExpr(ColumnIndex),
    LiteralExpr(LiteralExpression),
    MathExpr(MathExpression),
    MaxExpr(AggregateMax),
    MinExpr(AggregateMin),
    SumExpr(AggregateSum),
    AvgExpr(AggregateAvg),
    CountExpr(AggregateCount),
    CountDistinctExpr(AggregateCountDistinct),
    AliasExpr(Alias),
}

/// A shared handle on a logical expression.
pub struct ExprRef {
    pub state: Box<Expr>,
}

impl ExprRef {
    /// Wraps an expression.
    pub fn new(state: Box<Expr>) -> (r: ExprRef)
        ensures
            r.state == state,
    {
        ExprRef { state }
    }
}

/// Renaming an expression's field.
pub trait AsAlias {
    /// The same expression under a new field name.
    fn alias(self, alias: &str) -> ExprRef;
}

impl AsAlias for ExprRef {
    fn alias(self, alias: &str) -> (r: ExprRef) {
        ExprRef {
            state: Box::new(
                Expr::AliasExpr(Alias { expr: Box::new(self), alias: String::from_str(alias) }),
            ),
        }
    }
}

// --- Schema derivation for expressions ---

/// The index of the first field of `s` named `name`.
pub open spec fn first_match_idx(s: Seq<FieldView>, name: Seq<char>) -> int
    decreases s.len(),
{
    if s.len() == 0 {
        0
    } else if s[0].name == name {
        0
    } else {
        1 + first_match_idx(s.skip(1), name)
    }
}

/// When some field matches, the first match index addresses the first
/// matching field.
pub proof fn lemma_first_match_props(s: Seq<FieldView>, name: Seq<char>)
    requires
        exists|i: int| 0 <= i < s.len() && (#[trigger] s[i]).name == name,
    ensures
        0 <= first_match_idx(s, name) < s.len(),
        s[first_match_idx(s, name)].name == name,
        forall|j: int| 0 <= j < first_match_idx(s, name) ==> (#[trigger] s[j]).name != name,
    decreases s.len(),
{
    if s.len() > 0 && s[0].name != name {
        let w: int = choose|i: int| 0 <= i < s.len() && (#[trigger] s[i]).name == name;
        assert(s.skip(1)[w - 1] == s[w]);
        lemma_first_match_props(s.skip(1), name);
        assert forall|j: int| 0 <= j < first_match_idx(s, name) implies (#[trigger] s[j]).name
            != name by {
            if j > 0 {
                assert(s.skip(1)[j - 1] == s[j]);
            }
        }
    }
}

/// The field a literal contributes: the value's canonical text as the name
/// (float literals named by the decimal of their bit pattern), typed by the
/// literal's own type.
pub open spec fn lit_field(le: LiteralExpression) -> FieldView {
    match le {
        LiteralExpression::StringExpr(ls) => FieldView {
            name: ls.value@,
            data_type: ConcreteType::Utf8,
        },
        LiteralExpression::Numeric(ne) => match ne {
            NumericExpression::Integer8Expr(l) => FieldView {
                name: dec_int(l.value as int),
                data_type: ConcreteType::Int8,
            },
            NumericExpression::Integer16Expr(l) => FieldView {
                name: dec_int(l.value as int),
                data_type: ConcreteType::Int16,
            },
            NumericExpression::Integer32Expr(l) => FieldView {
                name: dec_int(l.value as int),
                data_type: ConcreteType::Int32,
            },
            NumericExpression::Integer64Expr(l) => FieldView {
                name: dec_int(l.value as int),
                data_type: ConcreteType::Int64,
            },
            NumericExpression::UInteger8Expr(l) => FieldView {
                name: dec_int(l.value as int),
                data_type: ConcreteType::UInt8,
            },
            NumericExpression::UInteger16Expr(l) => FieldView {
                name: dec_int(l.value as int),
                data_type: ConcreteType::UInt16,
            },
            NumericExpression::UInteger32Expr(l) => FieldView {
                name: dec_int(l.value as int),
                data_type: ConcreteType::UInt32,
            },
            NumericExpression::UInteger64Expr(l) => FieldView {
                name: dec_int(l.value as int),
                data_type: ConcreteType::UInt64,
            },
            NumericExpression::FloatExpr(l) => FieldView {
                name: dec_int(l.value as int),
                data_type: ConcreteType::Float32,
            },
            NumericExpression::DoubleExpr(l) => FieldView {
                name: dec_int(l.value as int),
                data_type: ConcreteType::Float64,
            },
        },
    }
}

/// The field an expression contributes against an input of fields `sv`:
/// comparisons and connectives are boolean fields named by their operator
/// token (so are the arithmetic forms, whose typing the logical layer does
/// not refine); a column reference resolves to the first field of its name;
/// aggregates take their operation's name over their input's type (counts
/// are 32-bit integers); an alias renames.
pub open spec fn field_of(e: Expr, sv: Seq<FieldView>) -> Result<FieldView, EngineError>
    decreases e,
{
    match e {
        Expr::ColumnExpr(c) => {
            if exists|i: int| 0 <= i < sv.len() && (#[trigger] sv[i]).name == c.name@ {
                Ok(sv[first_match_idx(sv, c.name@)])
            } else {
                Err(EngineError::AmbiguousOrMissingField)
            }
        },
        Expr::ColumnIndexExpr(ci) => {
            if ci.i < sv.len() {
                Ok(sv[ci.i as int])
            } else {
                Err(EngineError::IndexOutOfBounds)
            }
        },
        Expr::LiteralExpr(le) => Ok(lit_field(le)),
        Expr::EqOpExpr(_, _) => Ok(FieldView { name: "="@, data_type: ConcreteType::Boolean }),
        Expr::NeqExpr(_, _) => Ok(FieldView { name: "!="@, data_type: ConcreteType::Boolean }),
        Expr::GtExpr(_, _) => Ok(FieldView { name: ">"@, data_type: ConcreteType::Boolean }),
        Expr::GtEqExpr(_, _) => Ok(FieldView { name: ">="@, data_type: ConcreteType::Boolean }),
        Expr::LtExpr(_, _) => Ok(FieldView { name: "<"@, data_type: ConcreteType::Boolean }),
        Expr::LtEqExpr(_, _) => Ok(FieldView { name: "<="@, data_type: ConcreteType::Boolean }),
        Expr::AndExpr(_, _) => Ok(FieldView { name: "AND"@, data_type: ConcreteType::Boolean }),
        Expr::OrExpr(_, _) => Ok(FieldView { name: "OR"@, data_type: ConcreteType::Boolean }),
        Expr::MathExpr(me) => Ok(
            FieldView { name: math_token(me), data_type: ConcreteType::Boolean },
        ),
        Expr::SumExpr(a) => renamed(field_of(*a.expr.state, sv), "Sum"@),
        Expr::MinExpr(a) => renamed(field_of(*a.expr.state, sv), "Min"@),
        Expr::MaxExpr(a) => renamed(field_of(*a.expr.state, sv), "Max"@),
        Expr::AvgExpr(a) => renamed(field_of(*a.expr.state, sv), "Avg"@),
        Expr::CountExpr(_) => Ok(
            FieldView { name: "COUNT"@, data_type: ConcreteType::Int32 },
        ),
        Expr::CountDistinctExpr(_) => Ok(
            FieldView { name: "COUNT DISTINCT"@, data_type: ConcreteType::Int32 },
        ),
        Expr::AliasExpr(al) => renamed(field_of(*al.expr.state, sv), al.alias@),
    }
}

/// The operator token of an arithmetic form.
pub open spec fn math_token(me: MathExpression) -> Seq<char> {
    match me {
        MathExpression::AddExpr(_, _) => "+"@,
        MathExpression::SubExpr(_, _) => "-"@,
        MathExpression::MulExpr(_, _) => "*"@,
        MathExpression::DivExpr(_, _) => "/"@,
        MathExpression::ModExpr(_, _) => "%"@,
    }
}

/// A derived field under a new name.
pub open spec fn renamed(sub: Result<FieldView, EngineError>, name: Seq<char>) -> Result<
    FieldView,
    EngineError,
> {
    match sub {
        Ok(f) => Ok(FieldView { name, data_type: f.data_type }),
        Err(e) => Err(e),
    }
}

/// Resolves an expression's field against concrete input fields; realizes
/// `field_of`.
pub fn to_field_in(e: &Expr, input: &Schema) -> (r: Result<Field, EngineError>)
    ensures
        match (field_of(*e, input@), r) {
            (Ok(fv), Ok(f)) => f@ == fv,
            (Err(e1), Err(e2)) => e1 == e2,
            _ => false,
        },
    decreases e,
{
    match e {
        Expr::ColumnExpr(c) => {
            let n: usize = input.len();
            let mut i: usize = 0;
            while i < n
                invariant
                    i <= n,
                    n as nat == input@.len(),
                    *e == Expr::ColumnExpr(*c),
                    forall|j: int| 0 <= j < i ==> (#[trigger] input@[j]).name != c.name@,
                decreases n - i,
            {
                if input.fields[i].name.eq(&c.name) {
                    proof {
                        assert(input@[i as int].name == c.name@);
                        lemma_first_match_props(input@, c.name@);
                        let fm: int = first_match_idx(input@, c.name@);
                        assert(!(fm < i as int)) by {
                            if fm < i as int {
                                assert(input@[fm].name == c.name@);
                            }
                        };
                        assert(!((i as int) < fm)) by {
                            if (i as int) < fm {
                                assert(input@[i as int].name != c.name@);
                            }
                        };
                    }
                    return Ok(input.fields[i].clone());
                }
                i = i + 1;
            }
            Err(EngineError::AmbiguousOrMissingField)
        },
        Expr::ColumnIndexExpr(ci) => {
            if ci.i < input.len() {
                Ok(input.fields[ci.i].clone())
            } else {
                Err(EngineError::IndexOutOfBounds)
            }
        },
        Expr::LiteralExpr(le) => Ok(lit_field_exec(le)),
        Expr::EqOpExpr(_, _) => Ok(Field::new("=", ConcreteType::Boolean)),
        Expr::NeqExpr(_, _) => Ok(Field::new("!=", ConcreteType::Boolean)),
        Expr::GtExpr(_, _) => Ok(Field::new(">", ConcreteType::Boolean)),
        Expr::GtEqExpr(_, _) => Ok(Field::new(">=", ConcreteType::Boolean)),
        Expr::LtExpr(_, _) => Ok(Field::new("<", ConcreteType::Boolean)),
        Expr::LtEqExpr(_, _) => Ok(Field::new("<=", ConcreteType::Boolean)),
        Expr::AndExpr(_, _) => Ok(Field::new("AND", ConcreteType::Boolean)),
        Expr::OrExpr(_, _) => Ok(Field::new("OR", ConcreteType::Boolean)),
        Expr::MathExpr(me) => {
            let tok: &str = match me {
                MathExpression::AddExpr(_, _) => "+",
                MathExpression::SubExpr(_, _) => "-",
                MathExpression::MulExpr(_, _) => "*",
                MathExpression::DivExpr(_, _) => "/",
                MathExpression::ModExpr(_, _) => "%",
            };
            Ok(Field::new(tok, ConcreteType::Boolean))
        },
        Expr::SumExpr(a) => renamed_exec(to_field_in(&a.expr.state, input), "Sum"),
        Expr::MinExpr(a) => renamed_exec(to_field_in(&a.expr.state, input), "Min"),
        Expr::MaxExpr(a) => renamed_exec(to_field_in(&a.expr.state, input), "Max"),
        Expr::AvgExpr(a) => renamed_exec(to_field_in(&a.expr.state, input), "Avg"),
        Expr::CountExpr(_) => Ok(Field::new("COUNT", ConcreteType::Int32)),
        Expr::CountDistinctExpr(_) => Ok(Field::new("COUNT DISTINCT", ConcreteType::Int32)),
        Expr::AliasExpr(al) => renamed_exec(to_field_in(&al.expr.state, input), al.alias.as_str()),
    }
}

/// The executable field result realizes the specified one against the
/// input plan's schema.
pub open spec fn to_field_rel(e: Expr, p: LogicalPlan, r: Result<Field, EngineError>) -> bool {
    match logical_schema(p) {
        Err(e1) => r matches Err(e2) && e1 == e2,
        Ok(sv) => match (field_of(e, sv), r) {
            (Ok(fv), Ok(f)) => f@ == fv,
            (Err(e1), Err(e2)) => e1 == e2,
            _ => false,
        },
    }
}

impl Expr {
    /// The field this expression produces against a particular input plan:
    /// its `field_of` against the plan's derived schema, or whichever error
    /// stops the derivation.
    pub fn to_field(&self, input: &LogicalPlan) -> (r: Result<Field, EngineError>)
        ensures
            to_field_rel(*self, *input, r),
    {
        let sv: Schema = match input.schema() {
            Ok(s) => s,
            Err(e) => {
                return Err(e);
            },
        };
        to_field_in(self, &sv)
    }
}

impl ExprRef {
    /// The field the wrapped expression produces against an input plan.
    pub fn to_field(&self, input: &LogicalPlan) -> (r: Result<Field, EngineError>)
        ensures
            to_field_rel(*self.state, *input, r),
    {
        self.state.to_field(input)
    }
}

/// The field a literal contributes; realizes `lit_field`.
fn lit_field_exec(le: &LiteralExpression) -> (f: Field)
    ensures
        f@ == lit_field(*le),
{
    match le {
        LiteralExpression::StringExpr(ls) => Field {
            name: ls.value.clone(),
            data_type: ConcreteType::Utf8,
        },
        LiteralExpression::Numeric(ne) => {
            match ne {
                NumericExpression::Integer8Expr(l) => Field {
                    name: fmt_i128(l.value as i128),
                    data_type: ConcreteType::Int8,
                },
                NumericExpression::Integer16Expr(l) => Field {
                    name: fmt_i128(l.value as i128),
                    data_type: ConcreteType::Int16,
                },
                NumericExpression::Integer32Expr(l) => Field {
                    name: fmt_i128(l.value as i128),
                    data_type: ConcreteType::Int32,
                },
                NumericExpression::Integer64Expr(l) => Field {
                    name: fmt_i128(l.value as i128),
                    data_type: ConcreteType::Int64,
                },
                NumericExpression::UInteger8Expr(l) => Field {
                    name: fmt_i128(l.value as i128),
                    data_type: ConcreteType::UInt8,
                },
                NumericExpression::UInteger16Expr(l) => Field {
                    name: fmt_i128(l.value as i128),
                    data_type: ConcreteType::UInt16,
                },
                NumericExpression::UInteger32Expr(l) => Field {
                    name: fmt_i128(l.value as i128),
                    data_type: ConcreteType::UInt32,
                },
                NumericExpression::UInteger64Expr(l) => Field {
                    name: fmt_i128(l.value as i128),
                    data_type: ConcreteType::UInt64,
                },
                NumericExpression::FloatExpr(l) => Field {
                    name: fmt_i128(l.value as i128),
                    data_type: ConcreteType::Float32,
                },
                NumericExpression::DoubleExpr(l) => Field {
                    name: fmt_i128(l.value as i128),
                    data_type: ConcreteType::Float64,
                },
            }
        },
    }
}

/// A derived field under a new name; realizes `renamed`.
fn renamed_exec(sub: Result<Field, EngineError>, name: &str) -> (r: Result<Field, EngineError>)
    ensures
        match (sub, r) {
            (Ok(f0), Ok(f)) => f@.name == name@ && f@.data_type == f0@.data_type,
            (Err(e1), Err(e2)) => e1 == e2,
            _ => false,
        },
{
    match sub {
        Ok(f) => Ok(Field { name: String::from_str(name), data_type: f.data_type }),
        Err(e) => Err(e),
    }
}

// --- Plan nodes ---

/// The aggregate expression forms a grouping node carries.
pub enum AggregateExpr {
    Sum(AggregateSum),
    Min(AggregateMin),
    Max(AggregateMax),
    Avg(AggregateAvg),
    Count(AggregateCount),
    CountDistinct(AggregateCountDistinct),
}

/// Which rows a join keeps.
#[derive(Clone, Copy, Debug, PartialEq, Eq, Structural)]
pub enum JoinType {
    Inner,
    Left,
    Right,
}

/// A scan of a data source under a column projection.
pub struct Scan {
    pub data_source: InMemoryDataSource,
    pub path: String,
    pub projection: Vec<String>,
}

/// A projection: one output field per expression.
pub struct Projection {
    pub input: Box<LogicalPlan>,
    pub expr: Vec<ExprRef>,
}

/// A selection: the input's schema, fewer rows.
pub struct Selection {
    pub input: Box<LogicalPlan>,
    pub expr: ExprRef,
}

/// A grouping node: group-key fields followed by aggregate fields.
pub struct Aggregate {
    pub input: Box<LogicalPlan>,
    pub group_expr: Vec<ExprRef>,
    pub aggregate_expr: Vec<AggregateExpr>,
}

/// A row-count cap: the input's schema unchanged.
pub struct Limit {
    pub input: Box<LogicalPlan>,
    pub limit: usize,
}

/// A join of two inputs on name pairs.
pub struct Join {
    pub left: Box<LogicalPlan>,
    pub right: Box<LogicalPlan>,
    pub join_type: JoinType,
    pub on: Vec<(String, String)>,
}

/// A logical plan: a data transformation returning a relation.
pub enum LogicalPlan {
    JoinPlan(Join),
    LimitPlan(Limit),
    ProjectionPlan(Projection),
    ScanPlan(Scan),
    SelectionPlan(Selection),
    AggregatePlan(Aggregate),
}

// --- Schema derivation for plans ---

/// The names joined on by both sides under the same name.
pub open spec fn dup_keys(on: Seq<(String, String)>) -> Seq<Seq<char>>
    decreases on.len(),
{
    if on.len() == 0 {
        Seq::empty()
    } else {
        dup_keys(on.drop_last()) + (if on.last().0@ == on.last().1@ {
            seq![on.last().0@]
        } else {
            Seq::empty()
        })
    }
}

/// Whether `n` occurs among `names`.
pub open spec fn name_in(names: Seq<Seq<char>>, n: Seq<char>) -> bool {
    exists|i: int| 0 <= i < names.len() && names[i] == n
}

/// The fields of `s` whose names do not occur among `dup`, in order.
pub open spec fn drop_named(s: Seq<FieldView>, dup: Seq<Seq<char>>) -> Seq<FieldView>
    decreases s.len(),
{
    if s.len() == 0 {
        Seq::empty()
    } else {
        let pre = drop_named(s.drop_last(), dup);
        if name_in(dup, s.last().name) {
            pre
        } else {
            pre.push(s.last())
        }
    }
}

/// The field of `s` at the unique index whose name is `name`.
pub open spec fn sel_field(s: Seq<FieldView>, name: Seq<char>) -> FieldView {
    s[first_match_idx(s, name)]
}

/// What selecting fields by name from `s` yields: exactly one field per
/// requested name, each name requested once, or `AmbiguousOrMissingField`.
pub open spec fn select_views(s: Seq<FieldView>, names: Seq<String>) -> Result<
    Seq<FieldView>,
    EngineError,
> {
    if selectable(s, names) {
        Ok(Seq::new(names.len(), |j: int| sel_field(s, names[j]@)))
    } else {
        Err(EngineError::AmbiguousOrMissingField)
    }
}

/// Lifts `field_of` over a list of expression handles: every field, or the
/// first failure's error. All schema-derivation failures surface as the
/// same recoverable errors.
pub open spec fn fields_of(exprs: Seq<ExprRef>, sv: Seq<FieldView>) -> Result<
    Seq<FieldView>,
    EngineError,
>
    decreases exprs.len(),
{
    if exprs.len() == 0 {
        Ok(Seq::empty())
    } else {
        match fields_of(exprs.drop_last(), sv) {
            Err(e) => Err(e),
            Ok(pre) => match field_of(*exprs.last().state, sv) {
                Err(e) => Err(e),
                Ok(f) => Ok(pre.push(f)),
            },
        }
    }
}

/// The field an aggregate form contributes.
pub open spec fn agg_field_of(a: AggregateExpr, sv: Seq<FieldView>) -> Result<
    FieldView,
    EngineError,
> {
    match a {
        AggregateExpr::Sum(x) => renamed(field_of(*x.expr.state, sv), "Sum"@),
        AggregateExpr::Min(x) => renamed(field_of(*x.expr.state, sv), "Min"@),
        AggregateExpr::Max(x) => renamed(field_of(*x.expr.state, sv), "Max"@),
        AggregateExpr::Avg(x) => renamed(field_of(*x.expr.state, sv), "Avg"@),
        AggregateExpr::Count(_) => Ok(
            FieldView { name: "COUNT"@, data_type: ConcreteType::Int32 },
        ),
        AggregateExpr::CountDistinct(_) => Ok(
            FieldView { name: "COUNT DISTINCT"@, data_type: ConcreteType::Int32 },
        ),
    }
}

/// Lifts `agg_field_of` over a list of aggregate forms.
pub open spec fn agg_fields_of(aggs: Seq<AggregateExpr>, sv: Seq<FieldView>) -> Result<
    Seq<FieldView>,
    EngineError,
>
    decreases aggs.len(),
{
    if aggs.len() == 0 {
        Ok(Seq::empty())
    } else {
        match agg_fields_of(aggs.drop_last(), sv) {
            Err(e) => Err(e),
            Ok(pre) => match agg_field_of(aggs.last(), sv) {
                Err(e) => Err(e),
                Ok(f) => Ok(pre.push(f)),
            },
        }
    }
}

/// The schema a logical plan produces: a scan selects from its source's
/// schema (all of it when the projection is empty); a projection derives one
/// field per expression; selection and limit pass their input's schema
/// through; a grouping node lists group-key fields then aggregate fields;
/// a join lists the left side's fields and then the right side's, with each
/// column joined on under one shared name emitted once — by the left side
/// for inner and right joins, by the right side for left joins.
pub open spec fn logical_schema(p: LogicalPlan) -> Result<Seq<FieldView>, EngineError>
    decreases p,
{
    match p {
        LogicalPlan::ScanPlan(s) => {
            if s.projection@.len() == 0 {
                Ok(s.data_source.schema@)
            } else {
                select_views(s.data_source.schema@, s.projection@)
            }
        },
        LogicalPlan::ProjectionPlan(pr) => {
            match logical_schema(*pr.input) {
                Err(e) => Err(e),
                Ok(sv) => fields_of(pr.expr@, sv),
            }
        },
        LogicalPlan::SelectionPlan(se) => logical_schema(*se.input),
        LogicalPlan::LimitPlan(l) => logical_schema(*l.input),
        LogicalPlan::AggregatePlan(a) => {
            match logical_schema(*a.input) {
                Err(e) => Err(e),
                Ok(sv) => {
                    match (fields_of(a.group_expr@, sv), agg_fields_of(a.aggregate_expr@, sv)) {
                        (Ok(g), Ok(ags)) => Ok(g + ags),
                        (Err(e), _) => Err(e),
                        (_, Err(e)) => Err(e),
                    }
                },
            }
        },
        LogicalPlan::JoinPlan(j) => {
            match (logical_schema(*j.left), logical_schema(*j.right)) {
                (Ok(lv), Ok(rv)) => {
                    let dup = dup_keys(j.on@);
                    match j.join_type {
                        JoinType::Left => Ok(drop_named(lv, dup) + rv),
                        _ => Ok(lv + drop_named(rv, dup)),
                    }
                },
                (Err(e), _) => Err(e),
                (_, Err(e)) => Err(e),
            }
        },
    }
}

/// Two fields of one name cannot both exist when the name's match count
/// is one.
proof fn lemma_one_match(s: Seq<FieldView>, name: Seq<char>, i: int)
    requires
        0 <= i < s.len(),
        s[i].name == name,
    ensures
        matches_count(s, name) >= 1,
    decreases s.len(),
{
    if i < s.len() - 1 {
        lemma_one_match(s.drop_last(), name, i);
    }
}

/// A name with exactly one match admits only one matching index.
proof fn lemma_unique_match(s: Seq<FieldView>, name: Seq<char>, i: int, j: int)
    requires
        matches_count(s, name) == 1,
        0 <= i < s.len(),
        0 <= j < s.len(),
        s[i].name == name,
        s[j].name == name,
    ensures
        i == j,
    decreases s.len(),
{
    if i != j {
        let lo: int = if i < j {
            i
        } else {
            j
        };
        let hi: int = if i < j {
            j
        } else {
            i
        };
        if hi == s.len() - 1 {
            lemma_one_match(s.drop_last(), name, lo);
        } else if s.last().name == name {
            lemma_one_match(s.drop_last(), name, hi);
        } else {
            lemma_unique_match(s.drop_last(), name, i, j);
        }
    }
}

/// Filters `fields` to those whose names do not occur among `dup`.
fn drop_named_exec(fields: &Vec<Field>, dup: &Vec<String>) -> (r: Vec<Field>)
    ensures
        r@.map_values(|f: Field| f@) == drop_named(
            fields@.map_values(|f: Field| f@),
            dup@.map_values(|s: String| s@),
        ),
{
    let ghost fv: Seq<FieldView> = fields@.map_values(|f: Field| f@);
    let ghost dv: Seq<Seq<char>> = dup@.map_values(|s: String| s@);
    let mut out: Vec<Field> = Vec::new();
    let mut i: usize = 0;
    while i < fields.len()
        invariant
            i <= fields@.len(),
            fv == fields@.map_values(|f: Field| f@),
            dv == dup@.map_values(|s: String| s@),
            out@.map_values(|f: Field| f@) == drop_named(fv.take(i as int), dv),
        decreases fields@.len() - i,
    {
        proof {
            assert(fv.take(i + 1).drop_last() =~= fv.take(i as int));
            assert(fv.take(i + 1).last() == fv[i as int]);
        }
        if !contains_name(dup, &fields[i].name) {
            out.push(fields[i].clone());
        }
        proof {
            assert(out@.map_values(|f: Field| f@) =~= drop_named(fv.take(i + 1), dv));
        }
        i = i + 1;
    }
    proof {
        assert(fv.take(fields@.len() as int) =~= fv);
    }
    out
}

/// Decides whether `name` occurs among `names`.
fn contains_name(names: &Vec<String>, name: &String) -> (r: bool)
    ensures
        r == name_in(names@.map_values(|s: String| s@), name@),
{
    let ghost nv: Seq<Seq<char>> = names@.map_values(|s: String| s@);
    let mut i: usize = 0;
    while i < names.len()
        invariant
            i <= names@.len(),
            nv == names@.map_values(|s: String| s@),
            forall|j: int| 0 <= j < i ==> nv[j] != name@,
        decreases names@.len() - i,
    {
        if names[i].eq(name) {
            proof {
                assert(nv[i as int] == name@);
            }
            return true;
        }
        i = i + 1;
    }
    false
}

impl Scan {
    /// A scan node over a source.
    pub fn new(path: String, data_source: InMemoryDataSource, projection: Vec<String>) -> (r:
        Scan)
        ensures
            r.path == path,
            r.data_source == data_source,
            r.projection == projection,
    {
        Scan { data_source, path, projection }
    }

    /// The scan's derived schema; realizes the scan arm of
    /// `logical_schema`.
    pub fn derive_schema(&self) -> (r: Result<Schema, EngineError>)
        ensures
            schema_result_matches(
                logical_schema(LogicalPlan::ScanPlan(Scan {
                    data_source: self.data_source,
                    path: self.path,
                    projection: self.projection,
                })),
                r,
            ),
    {
        if self.projection.len() == 0 {
            Ok(self.data_source.schema.clone())
        } else {
            let r0 = self.data_source.schema.select(&self.projection);
            proof {
                if let Ok(s) = &r0 {
                    let sv: Seq<FieldView> = self.data_source.schema@;
                    assert forall|j: int| 0 <= j < self.projection@.len() implies s@[j]
                        == sel_field(sv, (#[trigger] self.projection@[j])@) by {
                        let nm: Seq<char> = self.projection@[j]@;
                        let i0: int = choose|i: int|
                            0 <= i < sv.len() && (#[trigger] sv[i]).name == nm && s@[j] == sv[i];
                        lemma_first_match_props(sv, nm);
                        lemma_unique_match(sv, nm, i0, first_match_idx(sv, nm));
                    }
                    assert(s@ =~= Seq::new(
                        self.projection@.len(),
                        |j: int| sel_field(sv, self.projection@[j]@),
                    ));
                }
            }
            r0
        }
    }
}

/// The executable schema result realizes the specified one.
pub open spec fn schema_result_matches(
    s: Result<Seq<FieldView>, EngineError>,
    r: Result<Schema, EngineError>,
) -> bool {
    match (s, r) {
        (Ok(sv), Ok(sc)) => sc@ == sv,
        (Err(e1), Err(e2)) => e1 == e2,
        _ => false,
    }
}

impl Projection {
    /// The projection's derived schema: one field per expression; realizes
    /// the projection arm of `logical_schema`.
    pub fn schema(&self) -> (r: Result<Schema, EngineError>)
        ensures
            schema_result_matches(
                logical_schema(LogicalPlan::ProjectionPlan(Projection {
                    input: self.input,
                    expr: self.expr,
                })),
                r,
            ),
        decreases self,
    {
        let sv: Schema = match self.input.schema() {
            Ok(s) => s,
            Err(e) => {
                return Err(e);
            },
        };
        let mut fields: Vec<Field> = Vec::new();
        let mut j: usize = 0;
        while j < self.expr.len()
            invariant
                j <= self.expr@.len(),
                logical_schema(*self.input) == Ok::<Seq<FieldView>, EngineError>(sv@),
                fields@.len() == j,
                fields_of(self.expr@.take(j as int), sv@) matches Ok(g) && g == fields@.map_values(
                    |f: Field| f@,
                ),
            decreases self.expr@.len() - j,
        {
            proof {
                assert(self.expr@.take(j + 1).drop_last() =~= self.expr@.take(j as int));
                assert(self.expr@.take(j + 1).last() == self.expr@[j as int]);
            }
            match to_field_in(&self.expr[j].state, &sv) {
                Ok(f) => {
                    fields.push(f);
                    proof {
                        assert(fields_of(self.expr@.take(j + 1), sv@) matches Ok(g) && g
                            =~= fields@.map_values(|f: Field| f@));
                    }
                },
                Err(e) => {
                    proof {
                        lemma_fields_of_err(self.expr@, sv@, j as int, e);
                    }
                    return Err(e);
                },
            }
            j = j + 1;
        }
        proof {
            assert(self.expr@.take(self.expr@.len() as int) =~= self.expr@);
        }
        Ok(Schema { fields })
    }
}

impl Aggregate {
    /// The grouping node's derived schema: group-key fields followed by
    /// aggregate fields; realizes the aggregate arm of `logical_schema`.
    #[verifier::rlimit(100)]
    pub fn schema(&self) -> (r: Result<Schema, EngineError>)
        ensures
            schema_result_matches(
                logical_schema(LogicalPlan::AggregatePlan(Aggregate {
                    input: self.input,
                    group_expr: self.group_expr,
                    aggregate_expr: self.aggregate_expr,
                })),
                r,
            ),
        decreases self,
    {
        let sv: Schema = match self.input.schema() {
            Ok(s) => s,
            Err(e) => {
                return Err(e);
            },
        };
        let mut fields: Vec<Field> = Vec::new();
        let mut j: usize = 0;
        while j < self.group_expr.len()
            invariant
                j <= self.group_expr@.len(),
                logical_schema(*self.input) == Ok::<Seq<FieldView>, EngineError>(sv@),
                fields@.len() == j,
                fields_of(self.group_expr@.take(j as int), sv@) matches Ok(g) && g
                    == fields@.map_values(|f: Field| f@),
            decreases self.group_expr@.len() - j,
        {
            proof {
                assert(self.group_expr@.take(j + 1).drop_last() =~= self.group_expr@.take(
                    j as int,
                ));
                assert(self.group_expr@.take(j + 1).last() == self.group_expr@[j as int]);
            }
            match to_field_in(&self.group_expr[j].state, &sv) {
                Ok(f) => {
                    fields.push(f);
                    proof {
                        assert(fields_of(self.group_expr@.take(j + 1), sv@) matches Ok(g) && g
                            =~= fields@.map_values(|f: Field| f@));
                    }
                },
                Err(e) => {
                    proof {
                        lemma_fields_of_err(self.group_expr@, sv@, j as int, e);
                    }
                    return Err(e);
                },
            }
            j = j + 1;
        }
        proof {
            assert(self.group_expr@.take(self.group_expr@.len() as int) =~= self.group_expr@);
        }
        let ghost groups: Seq<FieldView> = fields@.map_values(|f: Field| f@);
        proof {
            assert(groups + Seq::<FieldView>::empty() =~= groups);
        }
        let mut k: usize = 0;
        while k < self.aggregate_expr.len()
            invariant
                k <= self.aggregate_expr@.len(),
                logical_schema(*self.input) == Ok::<Seq<FieldView>, EngineError>(sv@),
                fields_of(self.group_expr@, sv@) == Ok::<Seq<FieldView>, EngineError>(groups),
                fields@.len() == groups.len() + k,
                agg_fields_of(self.aggregate_expr@.take(k as int), sv@) matches Ok(g) && groups + g
                    == fields@.map_values(|f: Field| f@),
            decreases self.aggregate_expr@.len() - k,
        {
            proof {
                assert(self.aggregate_expr@.take(k + 1).drop_last() =~= self.aggregate_expr@.take(
                    k as int,
                ));
                assert(self.aggregate_expr@.take(k + 1).last() == self.aggregate_expr@[k as int]);
            }
            let ghost g0: Seq<FieldView> = match agg_fields_of(
                self.aggregate_expr@.take(k as int),
                sv@,
            ) {
                Ok(g) => g,
                Err(_) => Seq::empty(),
            };
            match agg_to_field(&self.aggregate_expr[k], &sv) {
                Ok(f) => {
                    proof {
                        assert(agg_field_of(self.aggregate_expr@[k as int], sv@) == Ok::<
                            FieldView,
                            EngineError,
                        >(f@));
                    }
                    let ghost pre_fields: Seq<Field> = fields@;
                    fields.push(f);
                    proof {
                        assert(agg_fields_of(self.aggregate_expr@.take(k + 1), sv@) == Ok::<
                            Seq<FieldView>,
                            EngineError,
                        >(g0.push(f@)));
                        let lhs: Seq<FieldView> = groups + g0.push(f@);
                        let rhs: Seq<FieldView> = fields@.map_values(|f: Field| f@);
                        assert(groups + g0 == pre_fields.map_values(|f: Field| f@));
                        assert((groups + g0).len() == groups.len() + g0.len());
                        assert(pre_fields.map_values(|f: Field| f@).len() == pre_fields.len());
                        assert(g0.len() == k as int);
                        assert(lhs.len() == rhs.len());
                        assert forall|x: int| 0 <= x < lhs.len() implies lhs[x] == rhs[x] by {
                            if x < lhs.len() - 1 {
                                assert(fields@[x] == pre_fields[x]);
                                assert(rhs[x] == pre_fields.map_values(|f: Field| f@)[x]);
                                assert(lhs[x] == (groups + g0)[x]);
                            } else {
                                assert(fields@[x] == f);
                            }
                        }
                        assert(lhs =~= rhs);
                    }
                },
                Err(e) => {
                    proof {
                        lemma_agg_fields_of_err(self.aggregate_expr@, sv@, k as int, e);
                    }
                    return Err(e);
                },
            }
            k = k + 1;
        }
        proof {
            assert(self.aggregate_expr@.take(self.aggregate_expr@.len() as int)
                =~= self.aggregate_expr@);
        }
        Ok(Schema { fields })
    }
}

impl Join {
    /// The join's derived schema: the left side's fields and then the right
    /// side's, a column joined on under one shared name surviving once — on
    /// the left side for inner and right joins, on the right side for left
    /// joins; realizes the join arm of `logical_schema`.
    pub fn schema(&self) -> (r: Result<Schema, EngineError>)
        ensures
            schema_result_matches(
                logical_schema(LogicalPlan::JoinPlan(Join {
                    left: self.left,
                    right: self.right,
                    join_type: self.join_type,
                    on: self.on,
                })),
                r,
            ),
        decreases self,
    {
        let lsc: Schema = match self.left.schema() {
            Ok(s) => s,
            Err(e) => {
                return Err(e);
            },
        };
        let rsc: Schema = match self.right.schema() {
            Ok(s) => s,
            Err(e) => {
                return Err(e);
            },
        };
        let mut dup: Vec<String> = Vec::new();
        let mut i: usize = 0;
        while i < self.on.len()
            invariant
                i <= self.on@.len(),
                dup@.map_values(|s: String| s@) == dup_keys(self.on@.take(i as int)),
            decreases self.on@.len() - i,
        {
            proof {
                assert(self.on@.take(i + 1).drop_last() =~= self.on@.take(i as int));
                assert(self.on@.take(i + 1).last() == self.on@[i as int]);
            }
            if self.on[i].0.eq(&self.on[i].1) {
                dup.push(self.on[i].0.clone());
            }
            proof {
                assert(dup@.map_values(|s: String| s@) =~= dup_keys(self.on@.take(i + 1)));
            }
            i = i + 1;
        }
        proof {
            assert(self.on@.take(self.on@.len() as int) =~= self.on@);
        }
        let mut fields: Vec<Field> = Vec::new();
        match self.join_type {
            JoinType::Left => {
                let without_keys: Vec<Field> = drop_named_exec(&lsc.fields, &dup);
                append_fields(&mut fields, &without_keys);
                append_fields(&mut fields, &rsc.fields);
                let out = Schema { fields };
                proof {
                    assert(out@ =~= drop_named(lsc@, dup_keys(self.on@)) + rsc@);
                }
                Ok(out)
            },
            _ => {
                let without_keys: Vec<Field> = drop_named_exec(&rsc.fields, &dup);
                append_fields(&mut fields, &lsc.fields);
                append_fields(&mut fields, &without_keys);
                let out = Schema { fields };
                proof {
                    assert(out@ =~= lsc@ + drop_named(rsc@, dup_keys(self.on@)));
                }
                Ok(out)
            },
        }
    }
}

impl Scan {
    /// The scan's schema: its derived one.
    pub fn schema(&self) -> (r: Result<Schema, EngineError>)
        ensures
            schema_result_matches(
                logical_schema(LogicalPlan::ScanPlan(Scan {
                    data_source: self.data_source,
                    path: self.path,
                    projection: self.projection,
                })),
                r,
            ),
    {
        self.derive_schema()
    }
}

impl LogicalPlan {
    /// The schema of the relation this plan produces; realizes
    /// `logical_schema`.
    pub fn schema(&self) -> (r: Result<Schema, EngineError>)
        ensures
            schema_result_matches(logical_schema(*self), r),
        decreases self,
    {
        match self {
            LogicalPlan::ScanPlan(s) => s.schema(),
            LogicalPlan::SelectionPlan(se) => se.input.schema(),
            LogicalPlan::LimitPlan(l) => l.input.schema(),
            LogicalPlan::ProjectionPlan(pr) => pr.schema(),
            LogicalPlan::AggregatePlan(a) => a.schema(),
            LogicalPlan::JoinPlan(j) => j.schema(),
        }
    }

    /// The plan's children, left to right.
    pub fn children(&self) -> (r: Vec<&LogicalPlan>)
        ensures
            self matches LogicalPlan::ScanPlan(_) ==> r@.len() == 0,
            self matches LogicalPlan::ProjectionPlan(p) ==> r@.len() == 1 && *r@[0] == *p.input,
            self matches LogicalPlan::SelectionPlan(s) ==> r@.len() == 1 && *r@[0] == *s.input,
            self matches LogicalPlan::LimitPlan(l) ==> r@.len() == 1 && *r@[0] == *l.input,
            self matches LogicalPlan::AggregatePlan(a) ==> r@.len() == 1 && *r@[0] == *a.input,
            self matches LogicalPlan::JoinPlan(j) ==> r@.len() == 2 && *r@[0] == *j.left && *r@[1]
                == *j.right,
    {
        let mut v: Vec<&LogicalPlan> = Vec::new();
        match self {
            LogicalPlan::ScanPlan(_) => {},
            LogicalPlan::ProjectionPlan(p) => {
                v.push(&p.input);
            },
            LogicalPlan::SelectionPlan(s) => {
                v.push(&s.input);
            },
            LogicalPlan::LimitPlan(l) => {
                v.push(&l.input);
            },
            LogicalPlan::AggregatePlan(a) => {
                v.push(&a.input);
            },
            LogicalPlan::JoinPlan(j) => {
                v.push(&j.left);
                v.push(&j.right);
            },
        }
        v
    }
}

/// Appends clones of `src` to `dst`.
fn append_fields(dst: &mut Vec<Field>, src: &Vec<Field>)
    ensures
        final(dst)@.len() == old(dst)@.len() + src@.len(),
        final(dst)@.map_values(|f: Field| f@) == old(dst)@.map_values(|f: Field| f@)
            + src@.map_values(|f: Field| f@),
{
    let mut i: usize = 0;
    while i < src.len()
        invariant
            i <= src@.len(),
            dst@.len() == old(dst)@.len() + i,
            forall|k: int| 0 <= k < old(dst)@.len() ==> dst@[k] == old(dst)@[k],
            forall|k: int|
                old(dst)@.len() <= k < dst@.len() ==> (#[trigger] dst@[k])@ == src@[k - old(
                    dst,
                )@.len()]@,
        decreases src@.len() - i,
    {
        dst.push(src[i].clone());
        i = i + 1;
    }
    proof {
        assert(dst@.map_values(|f: Field| f@) =~= old(dst)@.map_values(|f: Field| f@)
            + src@.map_values(|f: Field| f@));
    }
}

/// The field an aggregate form contributes; realizes `agg_field_of`.
fn agg_to_field(a: &AggregateExpr, input: &Schema) -> (r: Result<Field, EngineError>)
    ensures
        match (agg_field_of(*a, input@), r) {
            (Ok(fv), Ok(f)) => f@ == fv,
            (Err(e1), Err(e2)) => e1 == e2,
            _ => false,
        },
{
    match a {
        AggregateExpr::Sum(x) => renamed_exec(to_field_in(&x.expr.state, input), "Sum"),
        AggregateExpr::Min(x) => renamed_exec(to_field_in(&x.expr.state, input), "Min"),
        AggregateExpr::Max(x) => renamed_exec(to_field_in(&x.expr.state, input), "Max"),
        AggregateExpr::Avg(x) => renamed_exec(to_field_in(&x.expr.state, input), "Avg"),
        AggregateExpr::Count(_) => Ok(Field::new("COUNT", ConcreteType::Int32)),
        AggregateExpr::CountDistinct(_) => Ok(Field::new("COUNT DISTINCT", ConcreteType::Int32)),
    }
}

/// A list whose prefix derives and whose next expression fails derives to
/// that failure.
proof fn lemma_fields_of_err(exprs: Seq<ExprRef>, sv: Seq<FieldView>, j: int, e: EngineError)
    requires
        0 <= j < exprs.len(),
        fields_of(exprs.take(j), sv) is Ok,
        field_of(*exprs[j].state, sv) == Err::<FieldView, EngineError>(e),
    ensures
        fields_of(exprs, sv) == Err::<Seq<FieldView>, EngineError>(e),
    decreases exprs.len(),
{
    if j == exprs.len() - 1 {
        assert(exprs.take(j) =~= exprs.drop_last());
    } else {
        assert(exprs.drop_last().take(j) =~= exprs.take(j));
        assert(exprs.drop_last()[j] == exprs[j]);
        lemma_fields_of_err(exprs.drop_last(), sv, j, e);
    }
}

/// The aggregate-list counterpart of `lemma_fields_of_err`.
proof fn lemma_agg_fields_of_err(
    aggs: Seq<AggregateExpr>,
    sv: Seq<FieldView>,
    j: int,
    e: EngineError,
)
    requires
        0 <= j < aggs.len(),
        agg_fields_of(aggs.take(j), sv) is Ok,
        agg_field_of(aggs[j], sv) == Err::<FieldView, EngineError>(e),
    ensures
        agg_fields_of(aggs, sv) == Err::<Seq<FieldView>, EngineError>(e),
    decreases aggs.len(),
{
    if j == aggs.len() - 1 {
        assert(aggs.take(j) =~= aggs.drop_last());
    } else {
        assert(aggs.drop_last().take(j) =~= aggs.take(j));
        assert(aggs.drop_last()[j] == aggs[j]);
        lemma_agg_fields_of_err(aggs.drop_last(), sv, j, e);
    }
}

// --- Rendering the plan tree ---

/// The label line of one plan node: its kind, with the scan's path and the
/// limit's row count.
pub open spec fn logical_label(p: LogicalPlan) -> Seq<char> {
    match p {
        LogicalPlan::ScanPlan(s) => "Scan: "@ + s.path@,
        LogicalPlan::ProjectionPlan(_) => "Projection"@,
        LogicalPlan::SelectionPlan(_) => "Selection"@,
        LogicalPlan::LimitPlan(l) => "Limit: "@ + dec_nat(l.limit as nat),
        LogicalPlan::AggregatePlan(_) => "Aggregate"@,
        LogicalPlan::JoinPlan(_) => "Join"@,
    }
}

/// The height of the plan tree.
pub open spec fn logical_depth(p: LogicalPlan) -> nat
    decreases p,
{
    match p {
        LogicalPlan::ScanPlan(_) => 1,
        LogicalPlan::ProjectionPlan(pr) => 1 + logical_depth(*pr.input),
        LogicalPlan::SelectionPlan(se) => 1 + logical_depth(*se.input),
        LogicalPlan::LimitPlan(l) => 1 + logical_depth(*l.input),
        LogicalPlan::AggregatePlan(a) => 1 + logical_depth(*a.input),
        LogicalPlan::JoinPlan(j) => {
            let dl = logical_depth(*j.left);
            let dr = logical_depth(*j.right);
            1 + if dl >= dr {
                dl
            } else {
                dr
            }
        },
    }
}

/// The rendered plan tree: the node's label on one line behind `indent`
/// tabs, then its children one level deeper, left before right.
pub open spec fn logical_text(p: LogicalPlan, indent: nat) -> Seq<char>
    decreases p,
{
    let head = tabs(indent) + logical_label(p) + seq!['\n'];
    match p {
        LogicalPlan::ScanPlan(_) => head,
        LogicalPlan::ProjectionPlan(pr) => head + logical_text(*pr.input, indent + 1),
        LogicalPlan::SelectionPlan(se) => head + logical_text(*se.input, indent + 1),
        LogicalPlan::LimitPlan(l) => head + logical_text(*l.input, indent + 1),
        LogicalPlan::AggregatePlan(a) => head + logical_text(*a.input, indent + 1),
        LogicalPlan::JoinPlan(j) => head + logical_text(*j.left, indent + 1) + logical_text(
            *j.right,
            indent + 1,
        ),
    }
}

/// Renders the plan tree from `plan`, one node per line, each child a tab
/// deeper; realizes `logical_text`.
pub fn pretty_format(plan: &LogicalPlan, indent: usize) -> (s: String)
    requires
        indent + logical_depth(*plan) <= usize::MAX,
    ensures
        s@ == logical_text(*plan, indent as nat),
    decreases plan,
{
    proof {
        reveal_strlit("\t");
        reveal_strlit("\n");
    }
    let mut s = String::new();
    let mut i: usize = 0;
    while i < indent
        invariant
            i <= indent,
            s@ == tabs(i as nat),
        decreases indent - i,
    {
        proof {
            reveal_strlit("\t");
        }
        s.append("\t");
        proof {
            assert(s@ =~= tabs((i + 1) as nat));
        }
        i = i + 1;
    }
    match plan {
        LogicalPlan::ScanPlan(sc) => {
            s.append("Scan: ");
            s.append(sc.path.as_str());
            s.append("\n");
            proof {
                assert(s@ =~= logical_text(*plan, indent as nat));
            }
        },
        LogicalPlan::ProjectionPlan(pr) => {
            s.append("Projection");
            s.append("\n");
            let sub = pretty_format(&pr.input, indent + 1);
            s.append(sub.as_str());
            proof {
                assert(s@ =~= logical_text(*plan, indent as nat));
            }
        },
        LogicalPlan::SelectionPlan(se) => {
            s.append("Selection");
            s.append("\n");
            let sub = pretty_format(&se.input, indent + 1);
            s.append(sub.as_str());
            proof {
                assert(s@ =~= logical_text(*plan, indent as nat));
            }
        },
        LogicalPlan::LimitPlan(l) => {
            s.append("Limit: ");
            let n = fmt_u64(l.limit as u64);
            s.append(n.as_str());
            s.append("\n");
            let sub = pretty_format(&l.input, indent + 1);
            s.append(sub.as_str());
            proof {
                assert(s@ =~= logical_text(*plan, indent as nat));
            }
        },
        LogicalPlan::AggregatePlan(a) => {
            s.append("Aggregate");
            s.append("\n");
            let sub = pretty_format(&a.input, indent + 1);
            s.append(sub.as_str());
            proof {
                assert(s@ =~= logical_text(*plan, indent as nat));
            }
        },
        LogicalPlan::JoinPlan(j) => {
            s.append("Join");
            s.append("\n");
            let left = pretty_format(&j.left, indent + 1);
            s.append(left.as_str());
            let right = pretty_format(&j.right, indent + 1);
            s.append(right.as_str());
            proof {
                assert(s@ =~= logical_text(*plan, indent as nat));
            }
        },
    }
    s
}

/// The rendered plan tree, unindented.
pub fn format_plan(plan: &LogicalPlan) -> (s: String)
    requires
        logical_depth(*plan) <= usize::MAX,
    ensures
        s@ == logical_text(*plan, 0),
{
    pretty_format(plan, 0)
}

// --- Convenience constructors ---

/// A column reference by name.
pub fn column(name: &str) -> (r: ExprRef)
    ensures
        *r.state matches Expr::ColumnExpr(c) && c.name@ == name@,
{
    ExprRef { state: Box::new(Expr::ColumnExpr(Column { name: String::from_str(name) })) }
}

/// A MIN aggregate over a named column.
pub fn min(name: &str) -> (r: AggregateExpr)
    ensures
        r matches AggregateExpr::Min(m) && *m.expr.state matches Expr::ColumnExpr(c) && c.name@
            == name@,
{
    AggregateExpr::Min(AggregateMin { expr: column(name) })
}

/// A MAX aggregate over a named column.
pub fn max(name: &str) -> (r: AggregateExpr)
    ensures
        r matches AggregateExpr::Max(m) && *m.expr.state matches Expr::ColumnExpr(c) && c.name@
            == name@,
{
    AggregateExpr::Max(AggregateMax { expr: column(name) })
}

/// A COUNT aggregate over a named column.
pub fn count(name: &str) -> (r: AggregateExpr)
    ensures
        r matches AggregateExpr::Count(m) && *m.expr.state matches Expr::ColumnExpr(c) && c.name@
            == name@,
{
    AggregateExpr::Count(AggregateCount { expr: column(name) })
}

/// The row count a literal numeric expression denotes, for a limit node:
/// see `limit_of`. Anything but a numeric literal denotes no row count, so
/// the contract excludes it.
pub fn numeric_lit_expr_to_usize(state: &Expr) -> (r: usize)
    requires
        state matches Expr::LiteralExpr(le) && le is Numeric,
    ensures
        state matches Expr::LiteralExpr(le) && le matches LiteralExpression::Numeric(ne) && (r
            as int == limit_of(*ne)),
{
    match state {
        Expr::LiteralExpr(le) => {
            match le {
                LiteralExpression::Numeric(ne) => {
                    let v: i128 = match ne {
                        NumericExpression::Integer8Expr(l) => l.value as i128,
                        NumericExpression::Integer16Expr(l) => l.value as i128,
                        NumericExpression::Integer32Expr(l) => l.value as i128,
                        NumericExpression::Integer64Expr(l) => l.value as i128,
                        NumericExpression::UInteger8Expr(l) => l.value as i128,
                        NumericExpression::UInteger16Expr(l) => l.value as i128,
                        NumericExpression::UInteger32Expr(l) => l.value as i128,
                        NumericExpression::UInteger64Expr(l) => l.value as i128,
                        NumericExpression::FloatExpr(l) => f32_to_int_clamped_exec(
                            l.value,
                            0,
                            usize::MAX as i128,
                            false,
                        ),
                        NumericExpression::DoubleExpr(l) => f64_to_int_clamped_exec(
                            l.value,
                            0,
                            usize::MAX as i128,
                            false,
                        ),
                    };
                    if 0 <= v && v <= usize::MAX as i128 {
                        v as usize
                    } else {
                        0
                    }
                },
                LiteralExpression::StringExpr(_) => unreached(),
            }
        },
        _ => unreached(),
    }
}

/// The row count a numeric literal denotes: an integer literal's value when
/// it lies in `usize`'s range and 0 otherwise; a float literal's number
/// truncated toward zero and clamped into the range, NaN giving 0.
pub open spec fn limit_of(ne: NumericExpression) -> int {
    match ne {
        NumericExpression::Integer8Expr(l) => clamp_usize(l.value as int),
        NumericExpression::Integer16Expr(l) => clamp_usize(l.value as int),
        NumericExpression::Integer32Expr(l) => clamp_usize(l.value as int),
        NumericExpression::Integer64Expr(l) => clamp_usize(l.value as int),
        NumericExpression::UInteger8Expr(l) => clamp_usize(l.value as int),
        NumericExpression::UInteger16Expr(l) => clamp_usize(l.value as int),
        NumericExpression::UInteger32Expr(l) => clamp_usize(l.value as int),
        NumericExpression::UInteger64Expr(l) => clamp_usize(l.value as int),
        NumericExpression::FloatExpr(l) => f32_to_int_clamped(l.value, 0, usize::MAX as int, false),
        NumericExpression::DoubleExpr(l) => f64_to_int_clamped(
            l.value,
            0,
            usize::MAX as int,
            false,
        ),
    }
}

/// `v` when it lies in `usize`'s range, else 0.
pub open spec fn clamp_usize(v: int) -> int {
    if 0 <= v <= usize::MAX {
        v
    } else {
        0
    }
}

} // verus!
