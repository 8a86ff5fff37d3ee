//! Streaming aggregation: per-aggregate accumulator state with whole-column
//! incremental update and a single finalize step.

use vstd::prelude::*;
use crate::errors::EngineError;
use crate::value::{ArrowValue, ConcreteType, ValOrdering, ValView, compare_values, val_cmp};
use crate::column_vector::ColumnVector;
use crate::expressions::{ColumnExpression, Expression, col_view, opt_view};

verus! {

/// The aggregate operations an accumulator can fold.
#[derive(Clone, Copy, Debug, PartialEq, Eq, Structural)]
pub enum AggregateOp {
    Sum,
    Min,
    Max,
    Count,
}

/// Whether the operation folds columns of element type `t`: sums are defined
/// on the integer types, order extrema also on the floats, and counting on
/// everything.
pub open spec fn agg_supported(op: AggregateOp, t: ConcreteType) -> bool {
    match op {
        AggregateOp::Count => true,
        AggregateOp::Sum => is_int_type(t),
        AggregateOp::Min => is_int_type(t) || t == ConcreteType::Float32 || t
            == ConcreteType::Float64,
        AggregateOp::Max => is_int_type(t) || t == ConcreteType::Float32 || t
            == ConcreteType::Float64,
    }
}

/// The signed and unsigned integer types.
pub open spec fn is_int_type(t: ConcreteType) -> bool {
    match t {
        ConcreteType::Int8 => true,
        ConcreteType::Int16 => true,
        ConcreteType::Int32 => true,
        ConcreteType::Int64 => true,
        ConcreteType::UInt8 => true,
        ConcreteType::UInt16 => true,
        ConcreteType::UInt32 => true,
        ConcreteType::UInt64 => true,
        _ => false,
    }
}

/// The payload of a 64-bit integer view, 0 for any other.
pub open spec fn vi64_of(v: ValView) -> i64 {
    match v {
        ValView::VI64(x) => x,
        _ => 0i64,
    }
}

/// The wrapping sum of two same-typed integer values.
pub open spec fn sum_step(c: ValView, v: ValView) -> ValView
    recommends
        c.vtype() == v.vtype(),
        is_int_type(v.vtype()),
{
    match (c, v) {
        (ValView::VI8(a), ValView::VI8(b)) => ValView::VI8(
            vstd::wrapping::i8_specs::wrapping_add(a, b),
        ),
        (ValView::VI16(a), ValView::VI16(b)) => ValView::VI16(
            vstd::wrapping::i16_specs::wrapping_add(a, b),
        ),
        (ValView::VI32(a), ValView::VI32(b)) => ValView::VI32(
            vstd::wrapping::i32_specs::wrapping_add(a, b),
        ),
        (ValView::VI64(a), ValView::VI64(b)) => ValView::VI64(
            vstd::wrapping::i64_specs::wrapping_add(a, b),
        ),
        (ValView::VU8(a), ValView::VU8(b)) => ValView::VU8(
            vstd::wrapping::u8_specs::wrapping_add(a, b),
        ),
        (ValView::VU16(a), ValView::VU16(b)) => ValView::VU16(
            vstd::wrapping::u16_specs::wrapping_add(a, b),
        ),
        (ValView::VU32(a), ValView::VU32(b)) => ValView::VU32(
            vstd::wrapping::u32_specs::wrapping_add(a, b),
        ),
        (ValView::VU64(a), ValView::VU64(b)) => ValView::VU64(
            vstd::wrapping::u64_specs::wrapping_add(a, b),
        ),
        _ => v,
    }
}

/// Folds one present input value into the running state: sums add
/// (wrapping), extrema keep the smaller or larger side per `val_cmp` (the
/// running value stands on unordered float pairs), counting increments a
/// 64-bit tally.
pub open spec fn agg_step(op: AggregateOp, cur: Option<ValView>, v: ValView) -> Option<ValView> {
    match op {
        AggregateOp::Count => match cur {
            None => Some(ValView::VI64(1i64)),
            Some(c) => Some(
                ValView::VI64(vstd::wrapping::i64_specs::wrapping_add(vi64_of(c), 1i64)),
            ),
        },
        AggregateOp::Sum => match cur {
            None => Some(v),
            Some(c) => Some(sum_step(c, v)),
        },
        AggregateOp::Min => match cur {
            None => Some(v),
            Some(c) => if val_cmp(v, c) == Some(ValOrdering::Less) {
                Some(v)
            } else {
                Some(c)
            },
        },
        AggregateOp::Max => match cur {
            None => Some(v),
            Some(c) => if val_cmp(v, c) == Some(ValOrdering::Greater) {
                Some(v)
            } else {
                Some(c)
            },
        },
    }
}

/// Folds a whole column of cells into the running state, in order, nulls
/// skipped.
pub open spec fn fold_agg(op: AggregateOp, cur: Option<ValView>, cells: Seq<Option<ValView>>)
    -> Option<ValView>
    decreases cells.len(),
{
    if cells.len() == 0 {
        cur
    } else {
        let pre = fold_agg(op, cur, cells.drop_last());
        match cells.last() {
            Some(v) => agg_step(op, pre, v),
            None => pre,
        }
    }
}

/// Whether a column of element type `t` may be folded into the current state:
/// the state, once present, fixes the type (counts are 64-bit tallies).
pub open spec fn agg_compat(op: AggregateOp, cur: Option<ValView>, t: ConcreteType) -> bool {
    match op {
        AggregateOp::Count => true,
        _ => match cur {
            None => true,
            Some(c) => c.vtype() == t,
        },
    }
}

/// Streaming aggregate state: created fresh per aggregate, updated a column
/// at a time, finalized once.
pub struct Accumulator {
    pub op: AggregateOp,
    pub value: Option<ArrowValue>,
}

impl Accumulator {
    /// A fresh accumulator for `op`, holding no value yet.
    pub fn new(op: AggregateOp) -> (a: Accumulator)
        ensures
            a.op == op,
            a.value is None,
    {
        Accumulator { op, value: Option::None }
    }

    /// Folds a whole column into the state. Fails with `UnsupportedType`
    /// exactly when the operation is undefined on the column's element type,
    /// and with `TypeMismatch` when the column's type differs from the
    /// state's; either failure leaves the state unchanged.
    pub fn update(&mut self, values: &ColumnVector) -> (r: Result<(), EngineError>)
        requires
            values.wf(),
        ensures
            r is Ok <==> (agg_supported(old(self).op, values.spec_elem_type()) && agg_compat(
                old(self).op,
                opt_view(old(self).value),
                values.spec_elem_type(),
            )),
            r is Ok ==> final(self).op == old(self).op && opt_view(final(self).value) == fold_agg(
                old(self).op,
                opt_view(old(self).value),
                col_view(values@),
            ),
            r matches Err(e) ==> *final(self) == *old(self) && (e == EngineError::UnsupportedType
                || e == EngineError::TypeMismatch),
        decreases values@.len(),
    {
        let t: ConcreteType = values.get_type();
        let supported: bool = match self.op {
            AggregateOp::Count => true,
            AggregateOp::Sum => is_int_type_exec(t),
            AggregateOp::Min => is_int_type_exec(t) || t == ConcreteType::Float32 || t
                == ConcreteType::Float64,
            AggregateOp::Max => is_int_type_exec(t) || t == ConcreteType::Float32 || t
                == ConcreteType::Float64,
        };
        if !supported {
            return Err(EngineError::UnsupportedType);
        }
        if !matches!(self.op, AggregateOp::Count) {
            match &self.value {
                Option::Some(c) => {
                    if c.get_conc_type() != t {
                        return Err(EngineError::TypeMismatch);
                    }
                    proof {
                        assert(c@.vtype() == c.spec_type());
                    }
                },
                Option::None => {},
            }
        }
        let n: usize = values.size();
        let mut i: usize = 0;
        while i < n
            invariant
                i <= n,
                n as nat == values@.len(),
                values.wf(),
                self.op == old(self).op,
                opt_view(self.value) == fold_agg(
                    old(self).op,
                    opt_view(old(self).value),
                    col_view(values@).take(i as int),
                ),
                agg_compat(self.op, opt_view(self.value), values.spec_elem_type()),
            decreases n - i,
        {
            let ghost cells: Seq<Option<ValView>> = col_view(values@);
            proof {
                assert(cells.take(i + 1).drop_last() =~= cells.take(i as int));
                assert(cells.take(i + 1).last() == cells[i as int]);
                assert(cells[i as int] == opt_view(values@[i as int]));
            }
            match values.get_value_inner(i) {
                Option::None => {},
                Option::Some(v) => {
                    proof {
                        assert(v.spec_type() == values.spec_elem_type());
                        assert(v@.vtype() == v.spec_type());
                    }
                    let stepped: ArrowValue = match self.op {
                        AggregateOp::Count => {
                            match &self.value {
                                Option::Some(c) => {
                                    match c {
                                        ArrowValue::Int64Type(x) => ArrowValue::Int64Type(
                                            x.wrapping_add(1),
                                        ),
                                        _ => ArrowValue::Int64Type(1),
                                    }
                                },
                                Option::None => ArrowValue::Int64Type(1),
                            }
                        },
                        AggregateOp::Sum => {
                            match &self.value {
                                Option::None => v,
                                Option::Some(c) => sum_values(c, &v),
                            }
                        },
                        AggregateOp::Min => {
                            match &self.value {
                                Option::None => v,
                                Option::Some(c) => {
                                    match compare_values(&v, c) {
                                        Ok(Option::Some(ValOrdering::Less)) => v,
                                        Ok(_) => c.clone(),
                                        Err(_) => {
                                            proof {
                                                assert(false);
                                            }
                                            c.clone()
                                        },
                                    }
                                },
                            }
                        },
                        AggregateOp::Max => {
                            match &self.value {
                                Option::None => v,
                                Option::Some(c) => {
                                    match compare_values(&v, c) {
                                        Ok(Option::Some(ValOrdering::Greater)) => v,
                                        Ok(_) => c.clone(),
                                        Err(_) => {
                                            proof {
                                                assert(false);
                                            }
                                            c.clone()
                                        },
                                    }
                                },
                            }
                        },
                    };
                    self.value = Option::Some(stepped);
                },
            }
            i = i + 1;
        }
        proof {
            assert(col_view(values@).take(n as int) =~= col_view(values@));
        }
        Ok(())
    }

    /// The finalized aggregate; finalizing an accumulator that saw no value
    /// is a caller error, so the contract excludes it.
    pub fn final_value(&self) -> (r: ArrowValue)
        requires
            self.value is Some,
        ensures
            opt_view(self.value) == Some(r@),
    {
        match &self.value {
            Option::Some(v) => v.clone(),
            Option::None => unreached(),
        }
    }
}

/// Decides `is_int_type`.
fn is_int_type_exec(t: ConcreteType) -> (r: bool)
    ensures
        r == is_int_type(t),
{
    match t {
        ConcreteType::Int8 => true,
        ConcreteType::Int16 => true,
        ConcreteType::Int32 => true,
        ConcreteType::Int64 => true,
        ConcreteType::UInt8 => true,
        ConcreteType::UInt16 => true,
        ConcreteType::UInt32 => true,
        ConcreteType::UInt64 => true,
        _ => false,
    }
}

/// The wrapping sum of two same-typed integer values.
fn sum_values(c: &ArrowValue, v: &ArrowValue) -> (r: ArrowValue)
    ensures
        r@ == sum_step(c@, v@),
{
    match (c, v) {
        (ArrowValue::Int8Type(a), ArrowValue::Int8Type(b)) => ArrowValue::Int8Type(
            a.wrapping_add(*b),
        ),
        (ArrowValue::Int16Type(a), ArrowValue::Int16Type(b)) => ArrowValue::Int16Type(
            a.wrapping_add(*b),
        ),
        (ArrowValue::Int32Type(a), ArrowValue::Int32Type(b)) => ArrowValue::Int32Type(
            a.wrapping_add(*b),
        ),
        (ArrowValue::Int64Type(a), ArrowValue::Int64Type(b)) => ArrowValue::Int64Type(
            a.wrapping_add(*b),
        ),
        (ArrowValue::UInt8Type(a), ArrowValue::UInt8Type(b)) => ArrowValue::UInt8Type(
            a.wrapping_add(*b),
        ),
        (ArrowValue::UInt16Type(a), ArrowValue::UInt16Type(b)) => ArrowValue::UInt16Type(
            a.wrapping_add(*b),
        ),
        (ArrowValue::UInt32Type(a), ArrowValue::UInt32Type(b)) => ArrowValue::UInt32Type(
            a.wrapping_add(*b),
        ),
        (ArrowValue::UInt64Type(a), ArrowValue::UInt64Type(b)) => ArrowValue::UInt64Type(
            a.wrapping_add(*b),
        ),
        _ => v.clone(),
    }
}

/// The SUM aggregate over its input expression.
pub struct SumExpression {
    pub expr: Expression,
}

/// The MIN aggregate over its input expression.
pub struct MinExpression {
    pub expr: Expression,
}

/// The MAX aggregate over its input expression.
pub struct MaxExpression {
    pub expr: Expression,
}

impl SumExpression {
    /// The expression whose column feeds the aggregate.
    pub fn input_expression(&self) -> (e: Expression)
        ensures
            e == self.expr,
    {
        self.expr.clone()
    }

    /// A fresh accumulator for this aggregate.
    pub fn create_accumulator(&self) -> (a: Accumulator)
        ensures
            a.op == AggregateOp::Sum,
            a.value is None,
    {
        Accumulator::new(AggregateOp::Sum)
    }
}

impl MinExpression {
    /// The expression whose column feeds the aggregate.
    pub fn input_expression(&self) -> (e: Expression)
        ensures
            e == self.expr,
    {
        self.expr.clone()
    }

    /// A fresh accumulator for this aggregate.
    pub fn create_accumulator(&self) -> (a: Accumulator)
        ensures
            a.op == AggregateOp::Min,
            a.value is None,
    {
        Accumulator::new(AggregateOp::Min)
    }
}

impl MaxExpression {
    /// The expression whose column feeds the aggregate.
    pub fn input_expression(&self) -> (e: Expression)
        ensures
            e == self.expr,
    {
        self.expr.clone()
    }

    /// A fresh accumulator for this aggregate.
    pub fn create_accumulator(&self) -> (a: Accumulator)
        ensures
            a.op == AggregateOp::Max,
            a.value is None,
    {
        Accumulator::new(AggregateOp::Max)
    }
}

/// A SUM aggregate over the batch's first column.
pub fn sum_expression() -> (r: SumExpression)
    ensures
        r.expr == Expression::Column(ColumnExpression { i: 0usize }),
{
    SumExpression { expr: Expression::Column(ColumnExpression { i: 0 }) }
}

/// A MIN aggregate over the batch's first column.
pub fn min_expression() -> (r: MinExpression)
    ensures
        r.expr == Expression::Column(ColumnExpression { i: 0usize }),
{
    MinExpression { expr: Expression::Column(ColumnExpression { i: 0 }) }
}

/// A MAX aggregate over the batch's first column.
pub fn max_expression() -> (r: MaxExpression)
    ensures
        r.expr == Expression::Column(ColumnExpression { i: 0usize }),
{
    MaxExpression { expr: Expression::Column(ColumnExpression { i: 0 }) }
}

} // verus!
