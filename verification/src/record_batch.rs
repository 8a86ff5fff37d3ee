//! Record batches: a schema-bound collection of equal-length columns, the
//! unit of data flow between operators.

use vstd::prelude::*;
use crate::column_vector::ColumnVector;
use crate::schema::Schema;

verus! {

/// A fixed-row-count, schema-bound chunk of columnar data.
pub struct RecordBatch {
    pub schema: Schema,
    pub fields: Vec<ColumnVector>,
}

impl RecordBatch {
    /// The batch's row count: the common length of its columns.
    pub open spec fn spec_row_count(&self) -> nat {
        if self.fields@.len() == 0 {
            0
        } else {
            self.fields@[0]@.len()
        }
    }

    /// The batch invariant: one column per schema field, every column
    /// well-formed and of the same length.
    pub open spec fn wf(&self) -> bool {
        &&& self.fields@.len() == self.schema@.len()
        &&& forall|i: int|
            0 <= i < self.fields@.len() ==> (#[trigger] self.fields@[i]).wf()
        &&& forall|i: int|
            0 <= i < self.fields@.len() ==> (#[trigger] self.fields@[i])@.len()
                == self.spec_row_count()
    }

    /// Binds columns to a schema. Fails (with `None`) exactly when the
    /// column count does not match the schema or two columns disagree in
    /// length: a malformed batch is never constructed silently.
    pub fn new(schema: Schema, columns: Vec<ColumnVector>) -> (r: Option<RecordBatch>)
        requires
            forall|i: int| 0 <= i < columns@.len() ==> (#[trigger] columns@[i]).wf(),
        ensures
            r is Some <==> (columns@.len() == schema@.len() && forall|i: int|
                0 <= i < columns@.len() ==> (#[trigger] columns@[i])@.len() == (if columns@.len()
                    == 0 {
                    0nat
                } else {
                    columns@[0]@.len()
                })),
            r matches Some(b) ==> b == (RecordBatch { schema, fields: columns }) && b.wf(),
    {
        if columns.len() != schema.len() {
            return Option::None;
        }
        let mut i: usize = 0;
        let rows: usize = if columns.len() == 0 {
            0
        } else {
            columns[0].size()
        };
        while i < columns.len()
            invariant
                i <= columns@.len(),
                rows as nat == (if columns@.len() == 0 {
                    0nat
                } else {
                    columns@[0]@.len()
                }),
                forall|j: int| 0 <= j < i ==> (#[trigger] columns@[j])@.len() == rows as nat,
            decreases columns.len() - i,
        {
            if columns[i].size() != rows {
                return Option::None;
            }
            i = i + 1;
        }
        Option::Some(RecordBatch { schema, fields: columns })
    }

    /// The batch's row count; a batch with no columns has no rows to count.
    pub fn row_count(&self) -> (n: usize)
        requires
            self.fields@.len() > 0,
        ensures
            n as nat == self.spec_row_count(),
    {
        self.fields[0].size()
    }

    /// The number of columns.
    pub fn column_count(&self) -> (n: usize)
        ensures
            n as nat == self.fields@.len(),
    {
        self.fields.len()
    }

    /// One column by index, shared by clone.
    pub fn field(&self, i: usize) -> (c: ColumnVector)
        requires
            i < self.fields@.len(),
        ensures
            c@ == self.fields@[i as int]@,
            c.spec_elem_type() == self.fields@[i as int].spec_elem_type(),
            c.wf() == self.fields@[i as int].wf(),
    {
        self.fields[i].clone()
    }
}

impl Clone for RecordBatch {
    fn clone(&self) -> (r: RecordBatch)
        ensures
            r.schema@ == self.schema@,
            r.fields@.len() == self.fields@.len(),
            forall|i: int|
                0 <= i < self.fields@.len() ==> (#[trigger] r.fields@[i])@ == self.fields@[i]@
                    && r.fields@[i].spec_elem_type() == self.fields@[i].spec_elem_type()
                    && r.fields@[i].wf() == self.fields@[i].wf(),
            self.wf() ==> r.wf(),
            r.spec_row_count() == self.spec_row_count(),
    {
        let schema = self.schema.clone();
        let mut fields: Vec<ColumnVector> = Vec::new();
        let mut i: usize = 0;
        while i < self.fields.len()
            invariant
                i <= self.fields@.len(),
                fields@.len() == i,
                forall|j: int|
                    0 <= j < i ==> (#[trigger] fields@[j])@ == self.fields@[j]@ && fields@[
                        j
                    ].spec_elem_type() == self.fields@[j].spec_elem_type() && fields@[j].wf()
                        == self.fields@[j].wf(),
            decreases self.fields@.len() - i,
        {
            fields.push(self.fields[i].clone());
            i = i + 1;
        }
        let r = RecordBatch { schema, fields };
        proof {
            assert(r.spec_row_count() == self.spec_row_count());
            if self.wf() {
                assert forall|i: int| 0 <= i < r.fields@.len() implies (#[trigger] r.fields@[
                    i
                ]).wf() && (#[trigger] r.fields@[i])@.len() == r.spec_row_count() by {
                    assert(self.fields@[i].wf());
                    assert(self.fields@[i]@.len() == self.spec_row_count());
                }
            }
        }
        r
    }
}

} // verus!
