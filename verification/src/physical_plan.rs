//! The pull-based physical operators: scan, projection and selection, each
//! exposing its schema and a full, in-order execution over an in-memory
//! source.
//!
//! `exec_rel` is the pipeline's denotation: it relates every operator tree to
//! the batch sequences it may produce, composing the per-batch relations of
//! the operators through their children's results. Execution is proved to
//! realize it; scan, projection and selection preserve row order by
//! construction.

use vstd::prelude::*;
use crate::errors::EngineError;
use crate::value::{ArrowValue, ConcreteType, ValView};
use crate::column_vector::{ArrowFieldVector, ColumnVector};
use crate::schema::{FieldView, Schema, all_distinct, matches_count, selectable, selected_from};
use crate::record_batch::RecordBatch;
use crate::expressions::{Expression, col_view, eval_expr, opt_view};

verus! {

// --- The in-memory data source ---

/// A data source held in memory: a schema and the batches that carry it.
pub struct InMemoryDataSource {
    pub schema: Schema,
    pub batches: Vec<RecordBatch>,
}

impl InMemoryDataSource {
    /// The source's schema is nonempty and every batch carries it.
    pub open spec fn wf(&self) -> bool {
        &&& self.schema@.len() > 0
        &&& forall|k: int|
            0 <= k < self.batches@.len() ==> (#[trigger] self.batches@[k]).wf()
                && self.batches@[k].schema@ == self.schema@
    }

    /// The source's schema.
    pub fn schema(&self) -> (s: Schema)
        ensures
            s@ == self.schema@,
    {
        self.schema.clone()
    }

    /// Scans the source, selecting the named columns (all columns when the
    /// projection is empty); see `scan_rel`.
    pub fn scan(&self, projection: &Vec<String>) -> (r: Result<Vec<RecordBatch>, EngineError>)
        requires
            self.wf(),
        ensures
            scan_rel(
                *self,
                projection@,
                match r {
                    Ok(v) => Ok(v@),
                    Err(e) => Err(e),
                },
            ),
    {
        if projection.len() == 0 {
            let mut out: Vec<RecordBatch> = Vec::new();
            let mut k: usize = 0;
            while k < self.batches.len()
                invariant
                    k <= self.batches@.len(),
                    self.wf(),
                    out@.len() == k,
                    forall|q: int|
                        0 <= q < k ==> batch_same(#[trigger] out@[q], self.batches@[q]),
                decreases self.batches@.len() - k,
            {
                out.push(self.batches[k].clone());
                k = k + 1;
            }
            return Ok(out);
        }
        if !all_distinct(projection) {
            return Err(EngineError::AmbiguousOrMissingField);
        }
        let mut ids: Vec<usize> = Vec::new();
        let mut j: usize = 0;
        while j < projection.len()
            invariant
                j <= projection@.len(),
                ids@.len() == j,
                forall|p: int, q: int|
                    0 <= p < q < projection@.len() ==> (#[trigger] projection@[p])@ != (
                    #[trigger] projection@[q])@,
                forall|q: int| 0 <= q < j ==> matches_count(self.schema@, projection@[q]@) == 1,
                forall|q: int|
                    0 <= q < j ==> (#[trigger] ids@[q]) < self.schema@.len()
                        && self.schema@[ids@[q] as int].name == projection@[q]@,
            decreases projection@.len() - j,
        {
            match self.schema.index_of_unique(&projection[j]) {
                Option::Some(i) => {
                    ids.push(i);
                },
                Option::None => {
                    return Err(EngineError::AmbiguousOrMissingField);
                },
            }
            j = j + 1;
        }
        let out_schema: Schema = self.schema.project(&ids);
        let mut out: Vec<RecordBatch> = Vec::new();
        let mut k: usize = 0;
        while k < self.batches.len()
            invariant
                k <= self.batches@.len(),
                self.wf(),
                ids@.len() == projection@.len() > 0,
                selectable(self.schema@, projection@),
                forall|q: int|
                    0 <= q < ids@.len() ==> (#[trigger] ids@[q]) < self.schema@.len()
                        && self.schema@[ids@[q] as int].name == projection@[q]@,
                out_schema@.len() == ids@.len(),
                forall|q: int|
                    0 <= q < ids@.len() ==> out_schema@[q] == self.schema@[ids@[q] as int],
                out@.len() == k,
                forall|q: int|
                    0 <= q < k ==> projected_batch(
                        *self,
                        projection@,
                        self.batches@[q],
                        #[trigger] out@[q],
                    ),
            decreases self.batches@.len() - k,
        {
            let src: &RecordBatch = &self.batches[k];
            let mut cols: Vec<ColumnVector> = Vec::new();
            let mut j2: usize = 0;
            while j2 < ids.len()
                invariant
                    j2 <= ids@.len(),
                    src.wf(),
                    src.schema@ == self.schema@,
                    forall|q: int|
                        0 <= q < ids@.len() ==> (#[trigger] ids@[q]) < self.schema@.len()
                            && self.schema@[ids@[q] as int].name == projection@[q]@,
                    cols@.len() == j2,
                    forall|q: int|
                        0 <= q < j2 ==> (#[trigger] cols@[q])@ == src.fields@[ids@[q] as int]@
                            && cols@[q].spec_elem_type() == src.fields@[
                            ids@[q] as int
                        ].spec_elem_type() && cols@[q].wf(),
                decreases ids@.len() - j2,
            {
                cols.push(src.field(ids[j2]));
                j2 = j2 + 1;
            }
            let b = RecordBatch { schema: out_schema.clone(), fields: cols };
            proof {
                assert(b.wf()) by {
                    assert(forall|q: int|
                        0 <= q < b.fields@.len() ==> (#[trigger] b.fields@[q])@.len()
                            == src.spec_row_count());
                };
                assert(projected_batch(*self, projection@, self.batches@[k as int], b)) by {
                    assert forall|q: int| 0 <= q < projection@.len() implies projected_col(
                        self.schema@,
                        (#[trigger] projection@[q])@,
                        self.batches@[k as int],
                        b.schema@[q],
                        b.fields@[q],
                    ) by {
                        let i0: int = ids@[q] as int;
                        assert(0 <= i0 < self.schema@.len() && self.schema@[i0].name
                            == projection@[q]@ && b.schema@[q] == self.schema@[i0]);
                    }
                };
            }
            out.push(b);
            k = k + 1;
        }
        Ok(out)
    }
}

/// `a` carries the same schema and columns as `b`.
pub open spec fn batch_same(a: RecordBatch, b: RecordBatch) -> bool {
    &&& a.wf()
    &&& a.schema@ == b.schema@
    &&& a.fields@.len() == b.fields@.len()
    &&& forall|j: int|
        0 <= j < a.fields@.len() ==> (#[trigger] a.fields@[j])@ == b.fields@[j]@ && a.fields@[
            j
        ].spec_elem_type() == b.fields@[j].spec_elem_type()
}

/// `c` under field `f` is the column of `src` that the unique field of
/// `schema_v` named `name` addresses.
pub open spec fn projected_col(
    schema_v: Seq<FieldView>,
    name: Seq<char>,
    src: RecordBatch,
    f: FieldView,
    c: ColumnVector,
) -> bool {
    exists|i: int|
        0 <= i < schema_v.len() && (#[trigger] schema_v[i]).name == name && f == schema_v[i] && i
            < src.fields@.len() && c@ == src.fields@[i]@ && c.spec_elem_type() == src.fields@[
            i
        ].spec_elem_type()
}

/// `out` is `src` with exactly the named columns, in requested order.
pub open spec fn projected_batch(
    ds: InMemoryDataSource,
    names: Seq<String>,
    src: RecordBatch,
    out: RecordBatch,
) -> bool {
    &&& out.wf()
    &&& out.schema@.len() == names.len()
    &&& out.fields@.len() == names.len()
    &&& forall|j: int|
        0 <= j < names.len() ==> projected_col(
            ds.schema@,
            (#[trigger] names[j])@,
            src,
            out.schema@[j],
            out.fields@[j],
        )
}

/// What scanning yields: every batch passed through unchanged when no
/// projection is requested; the named columns of every batch when each name
/// addresses exactly one field and no name repeats;
/// `AmbiguousOrMissingField` otherwise.
pub open spec fn scan_rel(
    ds: InMemoryDataSource,
    names: Seq<String>,
    r: Result<Seq<RecordBatch>, EngineError>,
) -> bool {
    if names.len() == 0 {
        r matches Ok(bs) && bs.len() == ds.batches@.len() && (forall|k: int|
            0 <= k < bs.len() ==> batch_same(#[trigger] bs[k], ds.batches@[k]))
    } else if selectable(ds.schema@, names) {
        r matches Ok(bs) && bs.len() == ds.batches@.len() && (forall|k: int|
            0 <= k < bs.len() ==> projected_batch(ds, names, ds.batches@[k], #[trigger] bs[k]))
    } else {
        r == Err::<Seq<RecordBatch>, EngineError>(EngineError::AmbiguousOrMissingField)
    }
}

// --- Per-batch operator work ---

/// What projecting one batch yields: when every output expression evaluates,
/// a batch of exactly the denoted columns under the projection's own schema;
/// else some failing expression's error.
pub open spec fn projected_rel(
    exprs: Seq<Expression>,
    out_schema: Seq<FieldView>,
    src: RecordBatch,
    r: Result<RecordBatch, EngineError>,
) -> bool {
    if forall|j: int| 0 <= j < exprs.len() ==> eval_expr(#[trigger] exprs[j], src) is Ok {
        r matches Ok(b) && {
            &&& b.wf()
            &&& b.schema@ == out_schema
            &&& b.fields@.len() == exprs.len()
            &&& forall|j: int|
                0 <= j < exprs.len() ==> (eval_expr(#[trigger] exprs[j], src) matches Ok(p)
                    && col_view(b.fields@[j]@) == p.0 && b.fields@[j].spec_elem_type() == p.1)
        }
    } else {
        r matches Err(e) && exists|j: int|
            0 <= j < exprs.len() && eval_expr(#[trigger] exprs[j], src) == Err::<
                (Seq<Option<ValView>>, ConcreteType),
                EngineError,
            >(e)
    }
}

/// Evaluates each output expression against `batch` and assembles the new
/// batch; see `projected_rel`.
pub fn project_batch(exprs: &Vec<Expression>, out_schema: &Schema, batch: &RecordBatch) -> (r:
    Result<RecordBatch, EngineError>)
    requires
        batch.wf(),
        batch.fields@.len() > 0,
        exprs@.len() == out_schema@.len(),
        exprs@.len() > 0,
    ensures
        projected_rel(exprs@, out_schema@, *batch, r),
{
    let mut cols: Vec<ColumnVector> = Vec::new();
    let mut j: usize = 0;
    while j < exprs.len()
        invariant
            j <= exprs@.len(),
            batch.wf(),
            batch.fields@.len() > 0,
            cols@.len() == j,
            forall|q: int| 0 <= q < j ==> eval_expr(#[trigger] exprs@[q], *batch) is Ok,
            forall|q: int|
                0 <= q < j ==> (#[trigger] cols@[q]).wf() && cols@[q]@.len()
                    == batch.spec_row_count(),
            forall|q: int|
                0 <= q < j ==> (eval_expr(#[trigger] exprs@[q], *batch) matches Ok(p) && col_view(
                    cols@[q]@,
                ) == p.0 && cols@[q].spec_elem_type() == p.1),
        decreases exprs@.len() - j,
    {
        match exprs[j].evaluate(batch) {
            Ok(c) => {
                cols.push(c);
            },
            Err(e) => {
                return Err(e);
            },
        }
        j = j + 1;
    }
    let b = RecordBatch { schema: out_schema.clone(), fields: cols };
    proof {
        assert(cols@[0].wf());
        assert(b.spec_row_count() == batch.spec_row_count());
        assert(b.wf());
    }
    Ok(b)
}

/// The rows of `s` that `mask` keeps: those whose mask cell is present and
/// true, in order.
pub open spec fn filter_seq(s: Seq<Option<ValView>>, mask: Seq<Option<ValView>>) -> Seq<
    Option<ValView>,
>
    decreases s.len(),
{
    if s.len() == 0 {
        Seq::empty()
    } else {
        let pre = filter_seq(s.drop_last(), mask);
        if s.len() - 1 < mask.len() && mask[s.len() - 1] == Some(ValView::VBool(true)) {
            pre.push(s.last())
        } else {
            pre
        }
    }
}

/// Equally long inputs filter to equally long outputs.
proof fn lemma_filter_len(s1: Seq<Option<ValView>>, s2: Seq<Option<ValView>>, mask: Seq<
    Option<ValView>,
>)
    requires
        s1.len() == s2.len(),
    ensures
        filter_seq(s1, mask).len() == filter_seq(s2, mask).len(),
    decreases s1.len(),
{
    if s1.len() > 0 {
        lemma_filter_len(s1.drop_last(), s2.drop_last(), mask);
    }
}

/// What filtering one batch yields: with a boolean predicate column, the
/// batch of the same schema holding only the rows the predicate keeps, in
/// their original order; `TypeMismatch` when the predicate column is not
/// boolean, else the predicate's own error.
pub open spec fn selected_rel(
    pred: Expression,
    src: RecordBatch,
    r: Result<RecordBatch, EngineError>,
) -> bool {
    match eval_expr(pred, src) {
        Err(e) => r == Err::<RecordBatch, EngineError>(e),
        Ok((mask, t)) => {
            if t != ConcreteType::Boolean {
                r == Err::<RecordBatch, EngineError>(EngineError::TypeMismatch)
            } else {
                r matches Ok(b) && {
                    &&& b.wf()
                    &&& b.schema@ == src.schema@
                    &&& b.fields@.len() == src.fields@.len()
                    &&& forall|j: int|
                        0 <= j < src.fields@.len() ==> col_view((#[trigger] b.fields@[j])@)
                            == filter_seq(col_view(src.fields@[j]@), mask) && b.fields@[
                            j
                        ].spec_elem_type() == src.fields@[j].spec_elem_type()
                }
            }
        },
    }
}

/// Filters one column by the mask.
fn filter_column(src: &ColumnVector, mask: &ColumnVector) -> (out: ColumnVector)
    requires
        src.wf(),
        src@.len() == mask@.len(),
    ensures
        col_view(out@) == filter_seq(col_view(src@), col_view(mask@)),
        out.spec_elem_type() == src.spec_elem_type(),
        out.wf(),
        out is ArrowVector,
{
    let ghost scv: Seq<Option<ValView>> = col_view(src@);
    let ghost mcv: Seq<Option<ValView>> = col_view(mask@);
    let rows: usize = src.size();
    let mut values: Vec<Option<ArrowValue>> = Vec::new();
    let mut i: usize = 0;
    while i < rows
        invariant
            i <= rows,
            rows as nat == src@.len() == mask@.len(),
            src.wf(),
            scv == col_view(src@),
            mcv == col_view(mask@),
            col_view(values@) == filter_seq(scv.take(i as int), mcv),
            forall|q: int|
                0 <= q < values@.len() ==> ((#[trigger] values@[q]) matches Some(v)
                    ==> v.spec_type() == src.spec_elem_type()),
        decreases rows - i,
    {
        proof {
            assert(scv.take(i + 1).drop_last() =~= scv.take(i as int));
            assert(scv.take(i + 1).last() == scv[i as int]);
            assert(scv[i as int] == opt_view(src@[i as int]));
            assert(mcv[i as int] == opt_view(mask@[i as int]));
        }
        let mv: Option<ArrowValue> = mask.get_value_inner(i);
        let keep: bool = match mv {
            Option::Some(ArrowValue::BooleanType(true)) => true,
            _ => false,
        };
        proof {
            assert(keep == (mcv[i as int] == Some(ValView::VBool(true))));
        }
        if keep {
            let cell: Option<ArrowValue> = src.get_value_inner(i);
            values.push(cell);
            proof {
                assert(col_view(values@) =~= filter_seq(scv.take(i + 1), mcv));
            }
        } else {
            proof {
                assert(col_view(values@) =~= filter_seq(scv.take(i + 1), mcv));
            }
        }
        i = i + 1;
    }
    proof {
        assert(scv.take(rows as int) =~= scv);
    }
    ColumnVector::ArrowVector(ArrowFieldVector { data_type: src.get_type(), values })
}

/// Evaluates the predicate against `batch` and keeps exactly the rows it
/// marks true, across every column; see `selected_rel`.
pub fn filter_batch(pred: &Expression, batch: &RecordBatch) -> (r: Result<
    RecordBatch,
    EngineError,
>)
    requires
        batch.wf(),
        batch.fields@.len() > 0,
    ensures
        selected_rel(*pred, *batch, r),
{
    let mask: ColumnVector = match pred.evaluate(batch) {
        Ok(c) => c,
        Err(e) => {
            return Err(e);
        },
    };
    if mask.get_type() != ConcreteType::Boolean {
        return Err(EngineError::TypeMismatch);
    }
    let ghost mcv: Seq<Option<ValView>> = col_view(mask@);
    let n: usize = batch.column_count();
    let mut cols: Vec<ColumnVector> = Vec::new();
    let mut j: usize = 0;
    while j < n
        invariant
            j <= n,
            n as nat == batch.fields@.len() > 0,
            batch.wf(),
            mask@.len() == batch.spec_row_count(),
            mcv == col_view(mask@),
            eval_expr(*pred, *batch) matches Ok(p) && p.0 == mcv && p.1 == ConcreteType::Boolean,
            cols@.len() == j,
            forall|q: int|
                0 <= q < j ==> col_view((#[trigger] cols@[q])@) == filter_seq(
                    col_view(batch.fields@[q]@),
                    mcv,
                ) && cols@[q].spec_elem_type() == batch.fields@[q].spec_elem_type()
                    && cols@[q].wf(),
        decreases n - j,
    {
        let filtered: ColumnVector = filter_column(&batch.fields[j], &mask);
        cols.push(filtered);
        j = j + 1;
    }
    let b = RecordBatch { schema: batch.schema.clone(), fields: cols };
    proof {
        assert forall|q: int| 0 <= q < b.fields@.len() implies (#[trigger] b.fields@[q])@.len()
            == b.spec_row_count() by {
            lemma_filter_len(col_view(batch.fields@[q]@), col_view(batch.fields@[0]@), mcv);
            assert(col_view(b.fields@[q]@).len() == b.fields@[q]@.len());
            assert(col_view(b.fields@[0]@).len() == b.fields@[0]@.len());
        }
        assert(b.wf());
    }
    Ok(b)
}

// --- The operator tree ---

/// The scan operator: the leaf, reading an in-memory source under a column
/// projection.
pub struct ScanExec {
    pub ds: InMemoryDataSource,
    pub projection: Vec<String>,
}

/// The projection operator: one output column per expression, under its own
/// schema.
pub struct ProjectionExec {
    pub input: Box<PhysicaPlan>,
    pub schema: Schema,
    pub expr: Vec<Expression>,
}

/// The selection operator: keeps the rows its boolean predicate marks true.
pub struct SelectionExec {
    pub input: Box<PhysicaPlan>,
    pub expr: Expression,
}

/// A physical operator tree.
pub enum PhysicaPlan {
    Scan(ScanExec),
    Projection(ProjectionExec),
    Selection(SelectionExec),
}

/// What deriving an operator's schema yields.
pub open spec fn schema_rel(p: PhysicaPlan, r: Result<Seq<FieldView>, EngineError>) -> bool
    decreases p,
{
    match p {
        PhysicaPlan::Scan(s) => {
            if s.projection@.len() == 0 {
                r matches Ok(v) && v == s.ds.schema@
            } else if selectable(s.ds.schema@, s.projection@) {
                r matches Ok(v) && v.len() == s.projection@.len() && (forall|j: int|
                    0 <= j < s.projection@.len() ==> selected_from(
                        s.ds.schema@,
                        (#[trigger] s.projection@[j])@,
                        v[j],
                    ))
            } else {
                r == Err::<Seq<FieldView>, EngineError>(EngineError::AmbiguousOrMissingField)
            }
        },
        PhysicaPlan::Projection(pe) => r matches Ok(v) && v == pe.schema@,
        PhysicaPlan::Selection(se) => schema_rel(*se.input, r),
    }
}

/// What executing an operator tree yields, composed through its children.
pub open spec fn exec_rel(p: PhysicaPlan, r: Result<Seq<RecordBatch>, EngineError>) -> bool
    decreases p,
{
    match p {
        PhysicaPlan::Scan(s) => scan_rel(s.ds, s.projection@, r),
        PhysicaPlan::Projection(pe) => exists|sub: Result<Seq<RecordBatch>, EngineError>|
            exec_rel(*pe.input, sub) && #[trigger] batches_rel_projection(
                pe.expr@,
                pe.schema@,
                sub,
                r,
            ),
        PhysicaPlan::Selection(se) => exists|sub: Result<Seq<RecordBatch>, EngineError>|
            exec_rel(*se.input, sub) && #[trigger] batches_rel_selection(se.expr, sub, r),
    }
}

/// Lifts the per-batch projection relation over a stream of batches: an
/// upstream error passes through, and any batch's failure stops the stream
/// with its error.
pub open spec fn batches_rel_projection(
    exprs: Seq<Expression>,
    out_schema: Seq<FieldView>,
    sub: Result<Seq<RecordBatch>, EngineError>,
    r: Result<Seq<RecordBatch>, EngineError>,
) -> bool {
    match (sub, r) {
        (Err(e), Err(e2)) => e == e2,
        (Ok(bs0), Ok(bs)) => bs.len() == bs0.len() && (forall|k: int|
            0 <= k < bs0.len() ==> projected_rel(
                exprs,
                out_schema,
                #[trigger] bs0[k],
                Ok(bs[k]),
            )),
        (Ok(bs0), Err(e)) => exists|k: int|
            0 <= k < bs0.len() && projected_rel(exprs, out_schema, #[trigger] bs0[k], Err(e)),
        _ => false,
    }
}

/// Lifts the per-batch selection relation over a stream of batches.
pub open spec fn batches_rel_selection(
    pred: Expression,
    sub: Result<Seq<RecordBatch>, EngineError>,
    r: Result<Seq<RecordBatch>, EngineError>,
) -> bool {
    match (sub, r) {
        (Err(e), Err(e2)) => e == e2,
        (Ok(bs0), Ok(bs)) => bs.len() == bs0.len() && (forall|k: int|
            0 <= k < bs0.len() ==> selected_rel(pred, #[trigger] bs0[k], Ok(bs[k]))),
        (Ok(bs0), Err(e)) => exists|k: int|
            0 <= k < bs0.len() && selected_rel(pred, #[trigger] bs0[k], Err(e)),
        _ => false,
    }
}

impl PhysicaPlan {
    /// The tree is executable: sources are well-formed and every projection
    /// node has as many expressions as schema fields, at least one.
    pub open spec fn wf(&self) -> bool
        decreases self,
    {
        match self {
            PhysicaPlan::Scan(s) => s.ds.wf(),
            PhysicaPlan::Projection(pe) => pe.input.wf() && pe.expr@.len() > 0 && pe.expr@.len()
                == pe.schema@.len(),
            PhysicaPlan::Selection(se) => se.input.wf(),
        }
    }

    /// The operator's children, left to right.
    pub fn children(&self) -> (r: Vec<&PhysicaPlan>)
        ensures
            self matches PhysicaPlan::Scan(_) ==> r@.len() == 0,
            self matches PhysicaPlan::Projection(pe) ==> r@.len() == 1 && *r@[0] == *pe.input,
            self matches PhysicaPlan::Selection(se) ==> r@.len() == 1 && *r@[0] == *se.input,
    {
        match self {
            PhysicaPlan::Scan(_) => Vec::new(),
            PhysicaPlan::Projection(pe) => {
                let mut v: Vec<&PhysicaPlan> = Vec::new();
                v.push(&pe.input);
                v
            },
            PhysicaPlan::Selection(se) => {
                let mut v: Vec<&PhysicaPlan> = Vec::new();
                v.push(&se.input);
                v
            },
        }
    }

    /// The schema of the batches this operator produces; see `schema_rel`.
    pub fn schema(&self) -> (r: Result<Schema, EngineError>)
        ensures
            schema_rel(
                *self,
                match r {
                    Ok(s) => Ok(s@),
                    Err(e) => Err(e),
                },
            ),
        decreases self,
    {
        match self {
            PhysicaPlan::Scan(s) => {
                if s.projection.len() == 0 {
                    Ok(s.ds.schema())
                } else {
                    s.ds.schema.select(&s.projection)
                }
            },
            PhysicaPlan::Projection(pe) => Ok(pe.schema.clone()),
            PhysicaPlan::Selection(se) => se.input.schema(),
        }
    }

    /// Pulls every batch through the operator tree; see `exec_rel`. The
    /// source is finite, so the whole stream is produced in order.
    pub fn execute(&self) -> (r: Result<Vec<RecordBatch>, EngineError>)
        requires
            self.wf(),
        ensures
            exec_rel(
                *self,
                match r {
                    Ok(v) => Ok(v@),
                    Err(e) => Err(e),
                },
            ),
            r matches Ok(v) ==> forall|k: int|
                0 <= k < v@.len() ==> (#[trigger] v@[k]).wf() && v@[k].fields@.len() > 0,
        decreases self,
    {
        match self {
            PhysicaPlan::Scan(s) => {
                let r0 = s.ds.scan(&s.projection);
                proof {
                    if let Ok(v) = &r0 {
                        assert forall|k: int| 0 <= k < v@.len() implies (#[trigger] v@[k]).wf()
                            && v@[k].fields@.len() > 0 by {
                            if s.projection@.len() == 0 {
                                assert(batch_same(v@[k], s.ds.batches@[k]));
                                assert(s.ds.batches@[k].wf());
                            } else {
                                assert(selectable(s.ds.schema@, s.projection@));
                                assert(projected_batch(s.ds, s.projection@, s.ds.batches@[k], v@[k]));
                            }
                        }
                    }
                }
                r0
            },
            PhysicaPlan::Projection(pe) => {
                let sub = match pe.input.execute() {
                    Ok(v) => v,
                    Err(e) => {
                        proof {
                            lemma_exec_rel_projection_intro(*pe, Err(e), Err(e));
                        }
                        return Err(e);
                    },
                };
                let mut out: Vec<RecordBatch> = Vec::new();
                let mut k: usize = 0;
                while k < sub.len()
                    invariant
                        k <= sub@.len(),
                        *self == PhysicaPlan::Projection(*pe),
                        pe.expr@.len() > 0,
                        pe.expr@.len() == pe.schema@.len(),
                        exec_rel(*pe.input, Ok(sub@)),
                        forall|q: int|
                            0 <= q < sub@.len() ==> (#[trigger] sub@[q]).wf() && sub@[
                                q
                            ].fields@.len() > 0,
                        out@.len() == k,
                        forall|q: int|
                            0 <= q < k ==> projected_rel(
                                pe.expr@,
                                pe.schema@,
                                #[trigger] sub@[q],
                                Ok(out@[q]),
                            ),
                    decreases sub@.len() - k,
                {
                    match project_batch(&pe.expr, &pe.schema, &sub[k]) {
                        Ok(b) => {
                            out.push(b);
                        },
                        Err(e) => {
                            proof {
                                lemma_exec_rel_projection_intro(*pe, Ok(sub@), Err(e));
                            }
                            return Err(e);
                        },
                    }
                    k = k + 1;
                }
                proof {
                    lemma_exec_rel_projection_intro(*pe, Ok(sub@), Ok(out@));
                    assert forall|q: int| 0 <= q < out@.len() implies (#[trigger] out@[q]).wf()
                        && out@[q].fields@.len() > 0 by {
                        assert(projected_rel(pe.expr@, pe.schema@, sub@[q], Ok(out@[q])));
                    }
                }
                Ok(out)
            },
            PhysicaPlan::Selection(se) => {
                let sub = match se.input.execute() {
                    Ok(v) => v,
                    Err(e) => {
                        proof {
                            lemma_exec_rel_selection_intro(*se, Err(e), Err(e));
                        }
                        return Err(e);
                    },
                };
                let mut out: Vec<RecordBatch> = Vec::new();
                let mut k: usize = 0;
                while k < sub.len()
                    invariant
                        k <= sub@.len(),
                        *self == PhysicaPlan::Selection(*se),
                        exec_rel(*se.input, Ok(sub@)),
                        forall|q: int|
                            0 <= q < sub@.len() ==> (#[trigger] sub@[q]).wf() && sub@[
                                q
                            ].fields@.len() > 0,
                        out@.len() == k,
                        forall|q: int|
                            0 <= q < k ==> selected_rel(se.expr, #[trigger] sub@[q], Ok(out@[q])),
                    decreases sub@.len() - k,
                {
                    match filter_batch(&se.expr, &sub[k]) {
                        Ok(b) => {
                            out.push(b);
                        },
                        Err(e) => {
                            proof {
                                lemma_exec_rel_selection_intro(*se, Ok(sub@), Err(e));
                            }
                            return Err(e);
                        },
                    }
                    k = k + 1;
                }
                proof {
                    lemma_exec_rel_selection_intro(*se, Ok(sub@), Ok(out@));
                    assert forall|q: int| 0 <= q < out@.len() implies (#[trigger] out@[q]).wf()
                        && out@[q].fields@.len() > 0 by {
                        assert(selected_rel(se.expr, sub@[q], Ok(out@[q])));
                        assert(sub@[q].wf() && sub@[q].fields@.len() > 0);
                    }
                }
                Ok(out)
            },
        }
    }
}

/// Exhibits a child result realizing a projection node's relation.
proof fn lemma_exec_rel_projection_intro(
    pe: ProjectionExec,
    sub: Result<Seq<RecordBatch>, EngineError>,
    r: Result<Seq<RecordBatch>, EngineError>,
)
    requires
        exec_rel(*pe.input, sub),
        batches_rel_projection(pe.expr@, pe.schema@, sub, r),
    ensures
        exec_rel(PhysicaPlan::Projection(pe), r),
{
}

/// Exhibits a child result realizing a selection node's relation.
proof fn lemma_exec_rel_selection_intro(
    se: SelectionExec,
    sub: Result<Seq<RecordBatch>, EngineError>,
    r: Result<Seq<RecordBatch>, EngineError>,
)
    requires
        exec_rel(*se.input, sub),
        batches_rel_selection(se.expr, sub, r),
    ensures
        exec_rel(PhysicaPlan::Selection(se), r),
{
}


/// `n` tab characters.
pub open spec fn tabs(n: nat) -> Seq<char>
    decreases n,
{
    if n == 0 {
        Seq::empty()
    } else {
        tabs((n - 1) as nat).push('\t')
    }
}

/// The label line of one operator node.
pub open spec fn plan_label(p: PhysicaPlan) -> Seq<char> {
    match p {
        PhysicaPlan::Scan(_) => "ScanExec"@,
        PhysicaPlan::Projection(_) => "ProjectionExec"@,
        PhysicaPlan::Selection(_) => "SelectionExec"@,
    }
}

/// The height of the operator tree.
pub open spec fn plan_depth(p: PhysicaPlan) -> nat
    decreases p,
{
    match p {
        PhysicaPlan::Scan(_) => 1,
        PhysicaPlan::Projection(pe) => 1 + plan_depth(*pe.input),
        PhysicaPlan::Selection(se) => 1 + plan_depth(*se.input),
    }
}

/// The rendered operator tree: the node's label on one line behind `indent`
/// tabs, then its children one level deeper.
pub open spec fn plan_text(p: PhysicaPlan, indent: nat) -> Seq<char>
    decreases p,
{
    let head = tabs(indent) + plan_label(p) + seq!['\n'];
    match p {
        PhysicaPlan::Scan(_) => head,
        PhysicaPlan::Projection(pe) => head + plan_text(*pe.input, indent + 1),
        PhysicaPlan::Selection(se) => head + plan_text(*se.input, indent + 1),
    }
}

/// Renders the operator tree from `plan`, one node per line, each child a
/// tab deeper; realizes `plan_text`.
pub fn pretty_format(plan: &PhysicaPlan, indent: usize) -> (s: String)
    requires
        indent + plan_depth(*plan) <= usize::MAX,
    ensures
        s@ == plan_text(*plan, indent as nat),
    decreases plan,
{
    proof {
        reveal_strlit("\t");
        reveal_strlit("\n");
    }
    let mut s = String::new();
    let mut i: usize = 0;
    while i < indent
        invariant
            i <= indent,
            s@ == tabs(i as nat),
        decreases indent - i,
    {
        proof {
            reveal_strlit("\t");
        }
        s.append("\t");
        proof {
            assert(s@ =~= tabs((i + 1) as nat));
        }
        i = i + 1;
    }
    match plan {
        PhysicaPlan::Scan(_) => {
            s.append("ScanExec");
            s.append("\n");
            proof {
                assert(s@ =~= plan_text(*plan, indent as nat));
            }
        },
        PhysicaPlan::Projection(pe) => {
            s.append("ProjectionExec");
            s.append("\n");
            let sub = pretty_format(&pe.input, indent + 1);
            s.append(sub.as_str());
            proof {
                assert(s@ =~= plan_text(*plan, indent as nat));
            }
        },
        PhysicaPlan::Selection(se) => {
            s.append("SelectionExec");
            s.append("\n");
            let sub = pretty_format(&se.input, indent + 1);
            s.append(sub.as_str());
            proof {
                assert(s@ =~= plan_text(*plan, indent as nat));
            }
        },
    }
    s
}

impl PhysicaPlan {
    /// The rendered operator tree from this node, unindented.
    pub fn format_plan(&self) -> (s: String)
        requires
            plan_depth(*self) <= usize::MAX,
        ensures
            s@ == plan_text(*self, 0),
    {
        pretty_format(self, 0)
    }
}

} // verus!
