//! Columns: same-typed sequences of optional scalar values, either broadcast
//! from one value (`Literal`) or materialized (`ArrowVector`).

use vstd::prelude::*;
use crate::value::{ArrowValue, ConcreteType};

verus! {

/// Clones an optional value.
pub fn clone_opt(v: &Option<ArrowValue>) -> (r: Option<ArrowValue>)
    ensures
        r == *v,
{
    match v {
        Option::None => Option::None,
        Option::Some(x) => Option::Some(x.clone()),
    }
}

/// Clones a vector of optional values.
pub fn clone_opt_vals(v: &Vec<Option<ArrowValue>>) -> (r: Vec<Option<ArrowValue>>)
    ensures
        r@ == v@,
{
    let mut out: Vec<Option<ArrowValue>> = Vec::new();
    let mut i: usize = 0;
    while i < v.len()
        invariant
            i <= v.len(),
            out@ == v@.take(i as int),
        decreases v.len() - i,
    {
        out.push(clone_opt(&v[i]));
        proof {
            assert(out@ =~= v@.take(i + 1));
        }
        i = i + 1;
    }
    proof {
        assert(out@ =~= v@);
    }
    out
}

/// One optional value conceptually repeated `size` times: a virtual
/// broadcast, not a materialized copy.
pub struct LiteralValueVector {
    pub arrow_type: ConcreteType,
    pub value: Option<ArrowValue>,
    pub size: usize,
}

impl LiteralValueVector {
    /// The broadcast value, if present, has the declared type.
    pub open spec fn wf(&self) -> bool {
        self.value matches Some(v) ==> v.spec_type() == self.arrow_type
    }
}

impl Clone for LiteralValueVector {
    fn clone(&self) -> (r: LiteralValueVector)
        ensures
            r == *self,
    {
        LiteralValueVector {
            arrow_type: self.arrow_type,
            value: clone_opt(&self.value),
            size: self.size,
        }
    }
}

/// A materialized column: a backing store of optional values.
pub struct ArrowFieldVector {
    pub data_type: ConcreteType,
    pub values: Vec<Option<ArrowValue>>,
}

impl ArrowFieldVector {
    /// Every present value has the declared type.
    pub open spec fn wf(&self) -> bool {
        forall|i: int|
            0 <= i < self.values@.len() ==> ((#[trigger] self.values@[i]) matches Some(v)
                ==> v.spec_type() == self.data_type)
    }
}

impl Clone for ArrowFieldVector {
    fn clone(&self) -> (r: ArrowFieldVector)
        ensures
            r.data_type == self.data_type,
            r.values@ == self.values@,
    {
        ArrowFieldVector { data_type: self.data_type, values: clone_opt_vals(&self.values) }
    }
}

/// A column of optional same-typed values.
pub enum ColumnVector {
    Literal(LiteralValueVector),
    ArrowVector(ArrowFieldVector),
}

impl View for ColumnVector {
    type V = Seq<Option<ArrowValue>>;

    /// The sequence of optional values the column holds, a literal column
    /// being its value repeated.
    open spec fn view(&self) -> Seq<Option<ArrowValue>> {
        match self {
            ColumnVector::Literal(l) => Seq::new(l.size as nat, |i: int| l.value),
            ColumnVector::ArrowVector(a) => a.values@,
        }
    }
}

impl ColumnVector {
    /// The column's element type.
    pub open spec fn spec_elem_type(&self) -> ConcreteType {
        match self {
            ColumnVector::Literal(l) => l.arrow_type,
            ColumnVector::ArrowVector(a) => a.data_type,
        }
    }

    /// Every present value has the column's element type.
    pub open spec fn wf(&self) -> bool {
        match self {
            ColumnVector::Literal(l) => l.wf(),
            ColumnVector::ArrowVector(a) => a.wf(),
        }
    }

    /// The column's element type.
    pub fn get_type(&self) -> (t: ConcreteType)
        ensures
            t == self.spec_elem_type(),
    {
        match self {
            ColumnVector::Literal(l) => l.arrow_type,
            ColumnVector::ArrowVector(a) => a.data_type,
        }
    }

    /// The number of slots in the column.
    pub fn size(&self) -> (n: usize)
        ensures
            n as nat == self@.len(),
    {
        match self {
            ColumnVector::Literal(l) => l.size,
            ColumnVector::ArrowVector(a) => a.values.len(),
        }
    }

    /// The optional value at a valid index.
    pub fn get_value_inner(&self, i: usize) -> (r: Option<ArrowValue>)
        requires
            i < self@.len(),
        ensures
            r == self@[i as int],
    {
        match self {
            ColumnVector::Literal(l) => clone_opt(&l.value),
            ColumnVector::ArrowVector(a) => clone_opt(&a.values[i]),
        }
    }

    /// The value at a valid index known to be present; a null there is a
    /// caller error, so the contract excludes it.
    pub fn get_value(&self, i: usize) -> (r: ArrowValue)
        requires
            i < self@.len(),
            self@[i as int] is Some,
        ensures
            self@[i as int] == Some(r),
    {
        match self.get_value_inner(i) {
            Option::Some(v) => v,
            Option::None => unreached(),
        }
    }

    /// Borrows the materialized store; a literal column has none, so the
    /// contract excludes it.
    pub fn get_vector(&self) -> (r: &ArrowFieldVector)
        requires
            self is ArrowVector,
        ensures
            self == ColumnVector::ArrowVector(*r),
    {
        match self {
            ColumnVector::ArrowVector(a) => a,
            ColumnVector::Literal(_) => unreached(),
        }
    }
}

impl Clone for ColumnVector {
    fn clone(&self) -> (r: ColumnVector)
        ensures
            r@ == self@,
            r.spec_elem_type() == self.spec_elem_type(),
            r.wf() == self.wf(),
            r is ArrowVector <==> self is ArrowVector,
    {
        match self {
            ColumnVector::Literal(l) => ColumnVector::Literal(l.clone()),
            ColumnVector::ArrowVector(a) => {
                let c = a.clone();
                proof {
                    assert(c.wf() == a.wf());
                }
                ColumnVector::ArrowVector(c)
            },
        }
    }
}

} // verus!
