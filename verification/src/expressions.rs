//! The vectorized expression evaluator: column references, literals,
//! boolean/comparison pairs and casts, each mapping a record batch to a
//! column.
//!
//! `eval_expr` is the evaluator's denotation: what each expression yields on
//! a batch, cell by cell, or which error stops it. The executable evaluator
//! is proved to return exactly that.

use vstd::prelude::*;
use crate::errors::EngineError;
use crate::value::{ArrowValue, ConcreteType, ValOrdering, ValView, compare_values, val_cmp};
use crate::cast::{cast_ok, cast_v};
use crate::column_vector::{ArrowFieldVector, ColumnVector, LiteralValueVector};
use crate::record_batch::RecordBatch;

verus! {

/// The mathematical content of an optional cell.
pub open spec fn opt_view(o: Option<ArrowValue>) -> Option<ValView> {
    match o {
        Some(v) => Some(v@),
        None => None,
    }
}

/// The mathematical content of a column's cells.
pub open spec fn col_view(s: Seq<Option<ArrowValue>>) -> Seq<Option<ValView>> {
    s.map_values(|o: Option<ArrowValue>| opt_view(o))
}

/// A reference to a column of the input batch, by index.
pub struct ColumnExpression {
    pub i: usize,
}

/// A literal string, broadcast over the input batch.
pub struct LiteralStringExpression {
    pub value: String,
}

/// A literal scalar of one supported type, broadcast over the input batch.
/// The float variants carry IEEE 754 bit patterns.
pub enum LiteralExpression {
    Int8(i8),
    Int16(i16),
    Int32(i32),
    Int64(i64),
    UInt8(u8),
    UInt16(u16),
    UInt32(u32),
    UInt64(u64),
    Float32(u32),
    Float64(u64),
    String(LiteralStringExpression),
}

impl LiteralExpression {
    /// The scalar this literal denotes.
    pub open spec fn spec_value(&self) -> ValView {
        match self {
            LiteralExpression::Int8(v) => ValView::VI8(*v),
            LiteralExpression::Int16(v) => ValView::VI16(*v),
            LiteralExpression::Int32(v) => ValView::VI32(*v),
            LiteralExpression::Int64(v) => ValView::VI64(*v),
            LiteralExpression::UInt8(v) => ValView::VU8(*v),
            LiteralExpression::UInt16(v) => ValView::VU16(*v),
            LiteralExpression::UInt32(v) => ValView::VU32(*v),
            LiteralExpression::UInt64(v) => ValView::VU64(*v),
            LiteralExpression::Float32(v) => ValView::VF32(*v),
            LiteralExpression::Float64(v) => ValView::VF64(*v),
            LiteralExpression::String(se) => ValView::VStr(se.value@),
        }
    }

    /// The scalar this literal denotes.
    fn value_of(&self) -> (v: ArrowValue)
        ensures
            v@ == self.spec_value(),
    {
        match self {
            LiteralExpression::Int8(v) => ArrowValue::Int8Type(*v),
            LiteralExpression::Int16(v) => ArrowValue::Int16Type(*v),
            LiteralExpression::Int32(v) => ArrowValue::Int32Type(*v),
            LiteralExpression::Int64(v) => ArrowValue::Int64Type(*v),
            LiteralExpression::UInt8(v) => ArrowValue::UInt8Type(*v),
            LiteralExpression::UInt16(v) => ArrowValue::UInt16Type(*v),
            LiteralExpression::UInt32(v) => ArrowValue::UInt32Type(*v),
            LiteralExpression::UInt64(v) => ArrowValue::UInt64Type(*v),
            LiteralExpression::Float32(v) => ArrowValue::FloatType(*v),
            LiteralExpression::Float64(v) => ArrowValue::DoubleType(*v),
            LiteralExpression::String(se) => ArrowValue::StringType(se.value.clone()),
        }
    }

    /// The literal's concrete type.
    pub fn get_conc_type(&self) -> (t: ConcreteType)
        ensures
            t == self.spec_value().vtype(),
    {
        match self {
            LiteralExpression::Int8(_) => ConcreteType::Int8,
            LiteralExpression::Int16(_) => ConcreteType::Int16,
            LiteralExpression::Int32(_) => ConcreteType::Int32,
            LiteralExpression::Int64(_) => ConcreteType::Int64,
            LiteralExpression::UInt8(_) => ConcreteType::UInt8,
            LiteralExpression::UInt16(_) => ConcreteType::UInt16,
            LiteralExpression::UInt32(_) => ConcreteType::UInt32,
            LiteralExpression::UInt64(_) => ConcreteType::UInt64,
            LiteralExpression::Float32(_) => ConcreteType::Float32,
            LiteralExpression::Float64(_) => ConcreteType::Float64,
            LiteralExpression::String(_) => ConcreteType::Utf8,
        }
    }
}

/// The element-wise operator of a boolean expression.
#[derive(Clone, Copy, Debug, PartialEq, Eq, Structural)]
pub enum BooleanOp {
    Eq,
    Neq,
    Gt,
    GtEq,
    Lt,
    LtEq,
    And,
    Or,
}

/// A binary boolean or comparison expression, applied element-wise.
pub struct BooleanExpression {
    pub op: BooleanOp,
    pub l: Expression,
    pub r: Expression,
}

/// An element-wise cast of a subexpression's column to a target type.
pub struct CastExpression {
    pub expr: Expression,
    pub data_type: ConcreteType,
}

/// A physical expression: evaluated against a record batch, it produces one
/// column.
pub enum Expression {
    Literal(LiteralExpression),
    Boolean(Box<BooleanExpression>),
    Column(ColumnExpression),
    Cast(Box<CastExpression>),
}

impl Clone for ColumnExpression {
    fn clone(&self) -> (r: ColumnExpression)
        ensures
            r == *self,
    {
        ColumnExpression { i: self.i }
    }
}

impl Clone for LiteralStringExpression {
    fn clone(&self) -> (r: LiteralStringExpression)
        ensures
            r == *self,
    {
        LiteralStringExpression { value: self.value.clone() }
    }
}

impl Clone for LiteralExpression {
    fn clone(&self) -> (r: LiteralExpression)
        ensures
            r == *self,
    {
        match self {
            LiteralExpression::Int8(v) => LiteralExpression::Int8(*v),
            LiteralExpression::Int16(v) => LiteralExpression::Int16(*v),
            LiteralExpression::Int32(v) => LiteralExpression::Int32(*v),
            LiteralExpression::Int64(v) => LiteralExpression::Int64(*v),
            LiteralExpression::UInt8(v) => LiteralExpression::UInt8(*v),
            LiteralExpression::UInt16(v) => LiteralExpression::UInt16(*v),
            LiteralExpression::UInt32(v) => LiteralExpression::UInt32(*v),
            LiteralExpression::UInt64(v) => LiteralExpression::UInt64(*v),
            LiteralExpression::Float32(v) => LiteralExpression::Float32(*v),
            LiteralExpression::Float64(v) => LiteralExpression::Float64(*v),
            LiteralExpression::String(se) => LiteralExpression::String(se.clone()),
        }
    }
}

impl Clone for BooleanExpression {
    fn clone(&self) -> (r: BooleanExpression)
        ensures
            r == *self,
        decreases self,
    {
        BooleanExpression { op: self.op, l: self.l.clone(), r: self.r.clone() }
    }
}

impl Clone for CastExpression {
    fn clone(&self) -> (r: CastExpression)
        ensures
            r == *self,
        decreases self,
    {
        CastExpression { data_type: self.data_type, expr: self.expr.clone() }
    }
}

impl Clone for Expression {
    fn clone(&self) -> (r: Expression)
        ensures
            r == *self,
        decreases self,
    {
        match self {
            Expression::Column(c) => Expression::Column(c.clone()),
            Expression::Literal(le) => Expression::Literal(le.clone()),
            Expression::Boolean(be) => Expression::Boolean(Box::new((**be).clone())),
            Expression::Cast(ce) => Expression::Cast(Box::new((**ce).clone())),
        }
    }
}

/// The boolean payload of a view known to be boolean.
pub open spec fn vbool_of(v: ValView) -> bool {
    match v {
        ValView::VBool(b) => b,
        _ => false,
    }
}

/// Whether `op` is defined on a pair of cell contents: conjunction and
/// disjunction ask for booleans, comparisons for equal types.
pub open spec fn op_defined(op: BooleanOp, a: ValView, b: ValView) -> bool {
    match op {
        BooleanOp::And => a is VBool && b is VBool,
        BooleanOp::Or => a is VBool && b is VBool,
        _ => a.vtype() == b.vtype(),
    }
}

/// What `op` yields on a pair of cell contents. Comparisons go by `val_cmp`;
/// a pair `val_cmp` leaves unordered (a float NaN beside anything) satisfies
/// only `Neq`.
pub open spec fn apply_op_v(op: BooleanOp, a: ValView, b: ValView) -> bool
    recommends
        op_defined(op, a, b),
{
    match op {
        BooleanOp::And => vbool_of(a) && vbool_of(b),
        BooleanOp::Or => vbool_of(a) || vbool_of(b),
        BooleanOp::Eq => val_cmp(a, b) == Some(ValOrdering::Equal),
        BooleanOp::Neq => val_cmp(a, b) != Some(ValOrdering::Equal),
        BooleanOp::Lt => val_cmp(a, b) == Some(ValOrdering::Less),
        BooleanOp::LtEq => val_cmp(a, b) == Some(ValOrdering::Less) || val_cmp(a, b) == Some(
            ValOrdering::Equal,
        ),
        BooleanOp::Gt => val_cmp(a, b) == Some(ValOrdering::Greater),
        BooleanOp::GtEq => val_cmp(a, b) == Some(ValOrdering::Greater) || val_cmp(a, b) == Some(
            ValOrdering::Equal,
        ),
    }
}

/// One output cell of a boolean expression: null when either operand is null.
pub open spec fn bool_cell(op: BooleanOp, a: Option<ValView>, b: Option<ValView>) -> Option<
    ValView,
> {
    match (a, b) {
        (Some(x), Some(y)) => Some(ValView::VBool(apply_op_v(op, x, y))),
        _ => None,
    }
}

/// One output cell of a cast: nulls pass through.
pub open spec fn cast_cell(o: Option<ValView>, t: ConcreteType) -> Option<ValView> {
    match o {
        Some(v) => match cast_v(v, t) {
            Ok(w) => Some(w),
            Err(_) => None,
        },
        None => None,
    }
}

/// What casting an evaluated column to `t` yields: the sub-result's error, or
/// `UnsupportedType` as soon as any present cell's cast is undefined, else
/// the column cast cell by cell.
pub open spec fn eval_cast_result(
    sub: Result<(Seq<Option<ValView>>, ConcreteType), EngineError>,
    t: ConcreteType,
) -> Result<(Seq<Option<ValView>>, ConcreteType), EngineError> {
    match sub {
        Err(e) => Err(e),
        Ok((vals, _)) => {
            if exists|i: int|
                0 <= i < vals.len() && ((#[trigger] vals[i]) matches Some(v) && !cast_ok(v, t)) {
                Err(EngineError::UnsupportedType)
            } else {
                Ok((Seq::new(vals.len(), |i: int| cast_cell(vals[i], t)), t))
            }
        },
    }
}

/// What an expression yields on a batch: the cells and element type of the
/// resulting column, or the error that stops evaluation.
pub open spec fn eval_expr(e: Expression, b: RecordBatch) -> Result<
    (Seq<Option<ValView>>, ConcreteType),
    EngineError,
>
    decreases e,
{
    match e {
        Expression::Column(c) => {
            if c.i < b.fields@.len() {
                Ok(
                    (
                        col_view(b.fields@[c.i as int]@),
                        b.fields@[c.i as int].spec_elem_type(),
                    ),
                )
            } else {
                Err(EngineError::IndexOutOfBounds)
            }
        },
        Expression::Literal(le) => Ok(
            (
                Seq::new(b.spec_row_count(), |i: int| Some(le.spec_value())),
                le.spec_value().vtype(),
            ),
        ),
        Expression::Boolean(be) => eval_boolean_expr(*be, b),
        Expression::Cast(ce) => eval_cast_result(eval_expr(ce.expr, b), ce.data_type),
    }
}

/// What a boolean expression yields on a batch: its operands' columns must
/// share one element type (boolean, for conjunction and disjunction), and the
/// result applies the operator cell by cell.
pub open spec fn eval_boolean_expr(be: BooleanExpression, b: RecordBatch) -> Result<
    (Seq<Option<ValView>>, ConcreteType),
    EngineError,
>
    decreases be,
{
    match (eval_expr(be.l, b), eval_expr(be.r, b)) {
        (Err(e), _) => Err(e),
        (_, Err(e)) => Err(e),
        (Ok((lv, lt)), Ok((rv, rt))) => {
            if lt != rt {
                Err(EngineError::TypeMismatch)
            } else if (be.op == BooleanOp::And || be.op == BooleanOp::Or) && lt
                != ConcreteType::Boolean {
                Err(EngineError::TypeMismatch)
            } else {
                Ok(
                    (
                        Seq::new(lv.len(), |i: int| bool_cell(be.op, lv[i], rv[i])),
                        ConcreteType::Boolean,
                    ),
                )
            }
        },
    }
}

/// The executable result `r` realizes the denotation `s` on a batch of
/// `rows` rows: same error, or a well-formed column of exactly the denoted
/// cells and type.
pub open spec fn eval_matches(
    s: Result<(Seq<Option<ValView>>, ConcreteType), EngineError>,
    r: Result<ColumnVector, EngineError>,
    rows: nat,
) -> bool {
    match (s, r) {
        (Ok((vals, t)), Ok(c)) => {
            &&& col_view(c@) == vals
            &&& c.spec_elem_type() == t
            &&& c.wf()
            &&& c@.len() == rows
            &&& vals.len() == rows
        },
        (Err(e1), Err(e2)) => e1 == e2,
        _ => false,
    }
}

/// Applies `op` to one pair of present cells. Fails with `TypeMismatch`
/// exactly when the pair is outside the operator's domain.
fn apply_pair(op: &BooleanOp, a: &ArrowValue, b: &ArrowValue) -> (r: Result<bool, EngineError>)
    ensures
        r is Ok <==> op_defined(*op, a@, b@),
        r matches Ok(v) ==> v == apply_op_v(*op, a@, b@),
        r matches Err(e) ==> e == EngineError::TypeMismatch,
{
    match op {
        BooleanOp::And => {
            match (a, b) {
                (ArrowValue::BooleanType(x), ArrowValue::BooleanType(y)) => Ok(*x && *y),
                _ => Err(EngineError::TypeMismatch),
            }
        },
        BooleanOp::Or => {
            match (a, b) {
                (ArrowValue::BooleanType(x), ArrowValue::BooleanType(y)) => Ok(*x || *y),
                _ => Err(EngineError::TypeMismatch),
            }
        },
        _ => {
            proof {
                assert(a@.vtype() == a.spec_type());
                assert(b@.vtype() == b.spec_type());
            }
            match compare_values(a, b) {
                Err(e) => Err(e),
                Ok(c) => Ok(
                    match op {
                        BooleanOp::Eq => matches!(c, Some(ValOrdering::Equal)),
                        BooleanOp::Neq => !matches!(c, Some(ValOrdering::Equal)),
                        BooleanOp::Lt => matches!(c, Some(ValOrdering::Less)),
                        BooleanOp::LtEq => matches!(
                            c,
                            Some(ValOrdering::Less) | Some(ValOrdering::Equal),
                        ),
                        BooleanOp::Gt => matches!(c, Some(ValOrdering::Greater)),
                        BooleanOp::GtEq => matches!(
                            c,
                            Some(ValOrdering::Greater) | Some(ValOrdering::Equal),
                        ),
                        BooleanOp::And => false,
                        BooleanOp::Or => false,
                    },
                ),
            }
        },
    }
}

impl BooleanExpression {
    /// Evaluates both operands and applies the operator element-wise,
    /// realizing `eval_boolean_expr`.
    pub fn evaluate(&self, input: &RecordBatch) -> (r: Result<ColumnVector, EngineError>)
        requires
            input.wf(),
            input.fields@.len() > 0,
        ensures
            eval_matches(eval_boolean_expr(*self, *input), r, input.spec_row_count()),
        decreases self,
    {
        let lc = match self.l.evaluate(input) {
            Ok(c) => c,
            Err(e) => {
                return Err(e);
            },
        };
        let rc = match self.r.evaluate(input) {
            Ok(c) => c,
            Err(e) => {
                return Err(e);
            },
        };
        if lc.get_type() != rc.get_type() {
            return Err(EngineError::TypeMismatch);
        }
        let is_logic: bool = matches!(self.op, BooleanOp::And | BooleanOp::Or);
        if is_logic && lc.get_type() != ConcreteType::Boolean {
            return Err(EngineError::TypeMismatch);
        }
        let ghost target: Seq<Option<ValView>> = match eval_boolean_expr(*self, *input) {
            Ok(p) => p.0,
            Err(_) => Seq::empty(),
        };
        let n: usize = lc.size();
        let mut out: Vec<Option<ArrowValue>> = Vec::new();
        let mut i: usize = 0;
        while i < n
            invariant
                i <= n,
                n as nat == lc@.len() == rc@.len(),
                lc.wf(),
                rc.wf(),
                lc.spec_elem_type() == rc.spec_elem_type(),
                is_logic ==> lc.spec_elem_type() == ConcreteType::Boolean,
                is_logic == (self.op == BooleanOp::And || self.op == BooleanOp::Or),
                eval_boolean_expr(*self, *input) == Ok::<
                    (Seq<Option<ValView>>, ConcreteType),
                    EngineError,
                >((target, ConcreteType::Boolean)),
                target.len() == n,
                forall|j: int|
                    0 <= j < n ==> target[j] == bool_cell(
                        self.op,
                        opt_view(lc@[j]),
                        opt_view(rc@[j]),
                    ),
                out@.len() == i,
                forall|j: int| 0 <= j < i ==> opt_view(#[trigger] out@[j]) == target[j],
                forall|j: int|
                    0 <= j < i ==> ((#[trigger] out@[j]) matches Some(v) ==> v.spec_type()
                        == ConcreteType::Boolean),
            decreases n - i,
        {
            let va: Option<ArrowValue> = lc.get_value_inner(i);
            let vb: Option<ArrowValue> = rc.get_value_inner(i);
            match (va, vb) {
                (Option::Some(a), Option::Some(b)) => {
                    proof {
                        assert(a.spec_type() == lc.spec_elem_type());
                        assert(b.spec_type() == rc.spec_elem_type());
                        assert(a@.vtype() == a.spec_type());
                        assert(b@.vtype() == b.spec_type());
                    }
                    match apply_pair(&self.op, &a, &b) {
                        Ok(v) => {
                            out.push(Option::Some(ArrowValue::BooleanType(v)));
                        },
                        Err(_) => {
                            proof {
                                assert(false);
                            }
                        },
                    }
                },
                _ => {
                    out.push(Option::None);
                },
            }
            i = i + 1;
        }
        let col = ColumnVector::ArrowVector(
            ArrowFieldVector { data_type: ConcreteType::Boolean, values: out },
        );
        proof {
            assert(col_view(col@) =~= target);
        }
        Ok(col)
    }
}

impl CastExpression {
    /// A cast of one input column to a target type.
    pub fn new(expr: ColumnExpression, data_type: ConcreteType) -> (r: CastExpression)
        ensures
            r.expr == Expression::Column(expr),
            r.data_type == data_type,
    {
        CastExpression { expr: Expression::Column(expr), data_type }
    }

    /// Evaluates the subexpression and casts its column element-wise,
    /// realizing `eval_cast_result`.
    pub fn evaluate(&self, input: &RecordBatch) -> (r: Result<ColumnVector, EngineError>)
        requires
            input.wf(),
            input.fields@.len() > 0,
        ensures
            eval_matches(
                eval_cast_result(eval_expr(self.expr, *input), self.data_type),
                r,
                input.spec_row_count(),
            ),
        decreases self,
    {
        let sub = match self.expr.evaluate(input) {
            Ok(c) => c,
            Err(e) => {
                return Err(e);
            },
        };
        let ghost vals: Seq<Option<ValView>> = col_view(sub@);
        let n: usize = sub.size();
        let mut out: Vec<Option<ArrowValue>> = Vec::new();
        let mut i: usize = 0;
        while i < n
            invariant
                i <= n,
                n as nat == sub@.len(),
                sub.wf(),
                vals == col_view(sub@),
                vals.len() == n,
                eval_expr(self.expr, *input) matches Ok(p) && p.0 == vals,
                out@.len() == i,
                forall|j: int|
                    0 <= j < i ==> ((#[trigger] vals[j]) matches Some(v) ==> cast_ok(
                        v,
                        self.data_type,
                    )),
                forall|j: int|
                    0 <= j < i ==> opt_view(#[trigger] out@[j]) == cast_cell(
                        vals[j],
                        self.data_type,
                    ),
                forall|j: int|
                    0 <= j < i ==> ((#[trigger] out@[j]) matches Some(v) ==> v.spec_type()
                        == self.data_type),
            decreases n - i,
        {
            match sub.get_value_inner(i) {
                Option::Some(v) => {
                    match v.cast_to(self.data_type) {
                        Ok(w) => {
                            proof {
                                lemma_cast_v_type(v@, self.data_type);
                                assert(w.spec_type() == w@.vtype());
                            }
                            out.push(Option::Some(w));
                        },
                        Err(e) => {
                            proof {
                                assert(vals[i as int] matches Some(x) && !cast_ok(
                                    x,
                                    self.data_type,
                                )) by {
                                    assert(vals[i as int] == opt_view(sub@[i as int]));
                                };
                                assert(!cast_ok(v@, self.data_type));
                                assert(cast_v(v@, self.data_type) == Err::<ValView, EngineError>(
                                    EngineError::UnsupportedType,
                                ));
                                assert(e == EngineError::UnsupportedType);
                                assert(eval_cast_result(eval_expr(self.expr, *input), self.data_type)
                                    == Err::<(Seq<Option<ValView>>, ConcreteType), EngineError>(
                                    EngineError::UnsupportedType,
                                ));
                            }
                            return Err(e);
                        },
                    }
                },
                Option::None => {
                    out.push(Option::None);
                },
            }
            i = i + 1;
        }
        let col = ColumnVector::ArrowVector(
            ArrowFieldVector { data_type: self.data_type, values: out },
        );
        proof {
            let target: Seq<Option<ValView>> = Seq::new(
                vals.len(),
                |j: int| cast_cell(vals[j], self.data_type),
            );
            assert(col_view(col@) =~= target);
        }
        Ok(col)
    }
}

/// A defined cast yields a value of exactly the target type.
pub proof fn lemma_cast_v_type(v: ValView, t: ConcreteType)
    requires
        cast_ok(v, t),
    ensures
        cast_v(v, t) matches Ok(w) && w.vtype() == t,
{
}

impl ColumnExpression {
    /// Returns the referenced column of the batch unchanged.
    pub fn evaluate(&self, input: &RecordBatch) -> (r: Result<ColumnVector, EngineError>)
        requires
            input.wf(),
            input.fields@.len() > 0,
        ensures
            eval_matches(
                eval_expr(Expression::Column(*self), *input),
                r,
                input.spec_row_count(),
            ),
    {
        if self.i < input.column_count() {
            Ok(input.field(self.i))
        } else {
            Err(EngineError::IndexOutOfBounds)
        }
    }
}

impl LiteralExpression {
    /// Returns the literal broadcast to the batch's row count, as a
    /// `Literal` column: a virtual broadcast, not a materialized copy.
    pub fn evaluate(&self, input: &RecordBatch) -> (r: Result<ColumnVector, EngineError>)
        requires
            input.wf(),
            input.fields@.len() > 0,
        ensures
            eval_matches(
                eval_expr(Expression::Literal(*self), *input),
                r,
                input.spec_row_count(),
            ),
            r matches Ok(c) ==> c is Literal,
    {
        let value: ArrowValue = self.value_of();
        let size: usize = input.row_count();
        let t: ConcreteType = self.get_conc_type();
        proof {
            assert(value@.vtype() == value.spec_type());
        }
        let col = ColumnVector::Literal(
            LiteralValueVector { arrow_type: t, value: Option::Some(value), size },
        );
        proof {
            let target: Seq<Option<ValView>> = Seq::new(
                input.spec_row_count(),
                |i: int| Some(self.spec_value()),
            );
            assert(col_view(col@) =~= target);
        }
        Ok(col)
    }
}

impl Expression {
    /// Evaluates the expression against an input batch, producing one column
    /// of data: exactly the column `eval_expr` denotes, or its error.
    pub fn evaluate(&self, input: &RecordBatch) -> (r: Result<ColumnVector, EngineError>)
        requires
            input.wf(),
            input.fields@.len() > 0,
        ensures
            eval_matches(eval_expr(*self, *input), r, input.spec_row_count()),
        decreases self,
    {
        match self {
            Expression::Boolean(be) => be.evaluate(input),
            Expression::Column(ce) => ce.evaluate(input),
            Expression::Literal(le) => le.evaluate(input),
            Expression::Cast(ce) => ce.evaluate(input),
        }
    }

    /// The constant concrete type of an expression that has one: a boolean
    /// expression yields booleans, a literal its own type, a cast its target
    /// type. A column reference's type depends on the batch, so the contract
    /// excludes it.
    pub fn get_conc_type(&self) -> (t: ConcreteType)
        requires
            !(self is Column),
        ensures
            self matches Expression::Boolean(_) ==> t == ConcreteType::Boolean,
            self matches Expression::Literal(le) ==> t == le.spec_value().vtype(),
            self matches Expression::Cast(ce) ==> t == ce.data_type,
    {
        match self {
            Expression::Boolean(_) => ConcreteType::Boolean,
            Expression::Literal(le) => le.get_conc_type(),
            Expression::Cast(ce) => ce.data_type,
            Expression::Column(_) => unreached(),
        }
    }
}

/// Comparator consistency: on same-typed values that are not float NaNs the
/// comparison is decided — exactly one of less, equal and greater holds —
/// and `GtEq` answers exactly the opposite of `Lt`. (A NaN beside any float
/// satisfies none of the three, and `GtEq` there is false while `Lt` is not
/// true either, so the law holds only away from NaN.)
pub proof fn lemma_comparator_consistency(a: ValView, b: ValView)
    requires
        a.vtype() == b.vtype(),
        a matches ValView::VF32(x) ==> !crate::floats::f32_is_nan(x),
        b matches ValView::VF32(x) ==> !crate::floats::f32_is_nan(x),
        a matches ValView::VF64(x) ==> !crate::floats::f64_is_nan(x),
        b matches ValView::VF64(x) ==> !crate::floats::f64_is_nan(x),
    ensures
        val_cmp(a, b) is Some,
        apply_op_v(BooleanOp::Lt, a, b) || apply_op_v(BooleanOp::Eq, a, b) || apply_op_v(
            BooleanOp::Gt,
            a,
            b,
        ),
        !(apply_op_v(BooleanOp::Lt, a, b) && apply_op_v(BooleanOp::Eq, a, b)),
        !(apply_op_v(BooleanOp::Lt, a, b) && apply_op_v(BooleanOp::Gt, a, b)),
        !(apply_op_v(BooleanOp::Eq, a, b) && apply_op_v(BooleanOp::Gt, a, b)),
        apply_op_v(BooleanOp::GtEq, a, b) == !apply_op_v(BooleanOp::Lt, a, b),
{
}

/// A comparison of the batch's first two columns; the shape the boolean
/// helper constructors share.
fn column_pair_expr(op: BooleanOp) -> (r: BooleanExpression)
    ensures
        r.op == op,
        r.l == Expression::Column(ColumnExpression { i: 0 }),
        r.r == Expression::Column(ColumnExpression { i: 1 }),
{
    BooleanExpression {
        op,
        l: Expression::Column(ColumnExpression { i: 0 }),
        r: Expression::Column(ColumnExpression { i: 1 }),
    }
}

/// Equality of the first two columns.
pub fn eq() -> (r: BooleanExpression)
    ensures
        r.op == BooleanOp::Eq,
        r.l == Expression::Column(ColumnExpression { i: 0 }),
        r.r == Expression::Column(ColumnExpression { i: 1 }),
{
    column_pair_expr(BooleanOp::Eq)
}

/// Inequality of the first two columns.
pub fn neq() -> (r: BooleanExpression)
    ensures
        r.op == BooleanOp::Neq,
        r.l == Expression::Column(ColumnExpression { i: 0 }),
        r.r == Expression::Column(ColumnExpression { i: 1 }),
{
    column_pair_expr(BooleanOp::Neq)
}

/// Strict order of the first two columns.
pub fn lt() -> (r: BooleanExpression)
    ensures
        r.op == BooleanOp::Lt,
        r.l == Expression::Column(ColumnExpression { i: 0 }),
        r.r == Expression::Column(ColumnExpression { i: 1 }),
{
    column_pair_expr(BooleanOp::Lt)
}

/// Non-strict order of the first two columns.
pub fn lteq() -> (r: BooleanExpression)
    ensures
        r.op == BooleanOp::LtEq,
        r.l == Expression::Column(ColumnExpression { i: 0 }),
        r.r == Expression::Column(ColumnExpression { i: 1 }),
{
    column_pair_expr(BooleanOp::LtEq)
}

/// Strict reverse order of the first two columns.
pub fn gt() -> (r: BooleanExpression)
    ensures
        r.op == BooleanOp::Gt,
        r.l == Expression::Column(ColumnExpression { i: 0 }),
        r.r == Expression::Column(ColumnExpression { i: 1 }),
{
    column_pair_expr(BooleanOp::Gt)
}

/// Non-strict reverse order of the first two columns.
pub fn gteq() -> (r: BooleanExpression)
    ensures
        r.op == BooleanOp::GtEq,
        r.l == Expression::Column(ColumnExpression { i: 0 }),
        r.r == Expression::Column(ColumnExpression { i: 1 }),
{
    column_pair_expr(BooleanOp::GtEq)
}

/// Conjunction of the first two columns.
pub fn and() -> (r: BooleanExpression)
    ensures
        r.op == BooleanOp::And,
        r.l == Expression::Column(ColumnExpression { i: 0 }),
        r.r == Expression::Column(ColumnExpression { i: 1 }),
{
    column_pair_expr(BooleanOp::And)
}

/// Disjunction of the first two columns.
pub fn or() -> (r: BooleanExpression)
    ensures
        r.op == BooleanOp::Or,
        r.l == Expression::Column(ColumnExpression { i: 0 }),
        r.r == Expression::Column(ColumnExpression { i: 1 }),
{
    column_pair_expr(BooleanOp::Or)
}

} // verus!
