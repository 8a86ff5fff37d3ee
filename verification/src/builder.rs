//! The incremental, index-addressed column builder: values are staged by
//! position, in any order, and compiled into an immutable materialized column.

use vstd::prelude::*;
use crate::value::{ArrowValue, ConcreteType, ValView};
use crate::column_vector::{ArrowFieldVector, ColumnVector, clone_opt};
use crate::expressions::opt_view;

verus! {

/// What staging an optional value in a builder of element type `bt` leaves in
/// the slot: the value if present and of the builder's type, else null.
/// Dropping mismatched values to null keeps the builder total by design.
pub open spec fn staged(bt: ConcreteType, value: Option<ArrowValue>) -> Option<ArrowValue> {
    match value {
        Some(v) => if v.spec_type() == bt {
            Some(v)
        } else {
            None
        },
        None => None,
    }
}

/// An index-addressed staging buffer with a fixed element type, sized to the
/// batch's row count at construction.
pub struct ArrowVectorBuilder {
    pub data_type: ConcreteType,
    pub slots: Vec<Option<ArrowValue>>,
}

impl ArrowVectorBuilder {
    /// Every staged value has the builder's type.
    pub open spec fn wf(&self) -> bool {
        forall|i: int|
            0 <= i < self.slots@.len() ==> ((#[trigger] self.slots@[i]) matches Some(v)
                ==> v.spec_type() == self.data_type)
    }

    /// A fresh builder with `rows` null slots.
    pub fn new(datatype: ConcreteType, rows: usize) -> (b: ArrowVectorBuilder)
        ensures
            b.data_type == datatype,
            b.slots@.len() == rows,
            forall|i: int| 0 <= i < rows ==> b.slots@[i] is None,
            b.wf(),
    {
        let mut slots: Vec<Option<ArrowValue>> = Vec::new();
        let mut i: usize = 0;
        while i < rows
            invariant
                i <= rows,
                slots@.len() == i,
                forall|j: int| 0 <= j < i ==> slots@[j] is None,
            decreases rows - i,
        {
            slots.push(Option::None);
            i = i + 1;
        }
        ArrowVectorBuilder { data_type: datatype, slots }
    }

    /// Stages `value` at slot `i`: the slot becomes the value if it has the
    /// builder's type, and null otherwise (also when `value` is absent).
    pub fn set(&mut self, i: usize, value: Option<ArrowValue>)
        requires
            i < old(self).slots@.len(),
        ensures
            final(self).data_type == old(self).data_type,
            final(self).slots@ == old(self).slots@.update(
                i as int,
                staged(old(self).data_type, value),
            ),
    {
        match value {
            Option::Some(v) => {
                if v.get_conc_type() == self.data_type {
                    self.slots.set(i, Option::Some(v));
                } else {
                    self.slots.set(i, Option::None);
                }
            },
            Option::None => {
                self.slots.set(i, Option::None);
            },
        }
    }

    /// Stages `values[j]` at slot `j` for every `j`, under the same
    /// type-or-null rule as `set`.
    pub fn set_all(&mut self, values: &Vec<Option<ArrowValue>>)
        requires
            values@.len() <= old(self).slots@.len(),
        ensures
            final(self).data_type == old(self).data_type,
            final(self).slots@.len() == old(self).slots@.len(),
            forall|j: int|
                0 <= j < values@.len() ==> final(self).slots@[j] == staged(
                    old(self).data_type,
                    values@[j],
                ),
            forall|j: int|
                values@.len() <= j < old(self).slots@.len() ==> final(self).slots@[j] == old(
                    self,
                ).slots@[j],
    {
        let mut i: usize = 0;
        while i < values.len()
            invariant
                i <= values@.len() <= self.slots@.len(),
                self.data_type == old(self).data_type,
                self.slots@.len() == old(self).slots@.len(),
                forall|j: int|
                    0 <= j < i ==> self.slots@[j] == staged(old(self).data_type, values@[j]),
                forall|j: int|
                    i <= j < old(self).slots@.len() ==> self.slots@[j] == old(self).slots@[j],
            decreases values.len() - i,
        {
            let v: Option<ArrowValue> = clone_opt(&values[i]);
            self.set(i, v);
            i = i + 1;
        }
    }

    /// Compiles the staged buffer into an immutable materialized column,
    /// consuming the builder: slot `j` of the result is what was staged
    /// at index `j`.
    pub fn build(self) -> (v: ColumnVector)
        requires
            self.wf(),
        ensures
            v is ArrowVector,
            v@ == self.slots@,
            v.spec_elem_type() == self.data_type,
            v.wf(),
    {
        ColumnVector::ArrowVector(
            ArrowFieldVector { data_type: self.data_type, values: self.slots },
        )
    }
}

/// A native columnar vector of one type, the shape bulk data arrives in.
/// The float variants carry IEEE 754 bit patterns.
pub enum TypeVector {
    Boolean(Vec<bool>),
    Int8(Vec<i8>),
    Int16(Vec<i16>),
    Int32(Vec<i32>),
    Int64(Vec<i64>),
    UInt8(Vec<u8>),
    UInt16(Vec<u16>),
    UInt32(Vec<u32>),
    UInt64(Vec<u64>),
    Float(Vec<u32>),
    Double(Vec<u64>),
    String(Vec<String>),
}

impl TypeVector {
    /// The contents of the vector, element by element.
    pub open spec fn spec_values(&self) -> Seq<ValView> {
        match self {
            TypeVector::Boolean(v) => v@.map_values(|x: bool| ValView::VBool(x)),
            TypeVector::Int8(v) => v@.map_values(|x: i8| ValView::VI8(x)),
            TypeVector::Int16(v) => v@.map_values(|x: i16| ValView::VI16(x)),
            TypeVector::Int32(v) => v@.map_values(|x: i32| ValView::VI32(x)),
            TypeVector::Int64(v) => v@.map_values(|x: i64| ValView::VI64(x)),
            TypeVector::UInt8(v) => v@.map_values(|x: u8| ValView::VU8(x)),
            TypeVector::UInt16(v) => v@.map_values(|x: u16| ValView::VU16(x)),
            TypeVector::UInt32(v) => v@.map_values(|x: u32| ValView::VU32(x)),
            TypeVector::UInt64(v) => v@.map_values(|x: u64| ValView::VU64(x)),
            TypeVector::Float(v) => v@.map_values(|x: u32| ValView::VF32(x)),
            TypeVector::Double(v) => v@.map_values(|x: u64| ValView::VF64(x)),
            TypeVector::String(v) => v@.map_values(|x: String| ValView::VStr(x@)),
        }
    }

    /// The element type of the vector.
    pub open spec fn spec_type(&self) -> ConcreteType {
        match self {
            TypeVector::Boolean(_) => ConcreteType::Boolean,
            TypeVector::Int8(_) => ConcreteType::Int8,
            TypeVector::Int16(_) => ConcreteType::Int16,
            TypeVector::Int32(_) => ConcreteType::Int32,
            TypeVector::Int64(_) => ConcreteType::Int64,
            TypeVector::UInt8(_) => ConcreteType::UInt8,
            TypeVector::UInt16(_) => ConcreteType::UInt16,
            TypeVector::UInt32(_) => ConcreteType::UInt32,
            TypeVector::UInt64(_) => ConcreteType::UInt64,
            TypeVector::Float(_) => ConcreteType::Float32,
            TypeVector::Double(_) => ConcreteType::Float64,
            TypeVector::String(_) => ConcreteType::Utf8,
        }
    }
}

/// Builds a materialized column of `data_type` from a native vector, under
/// the builder's type-or-null rule: when the vector's element type is the
/// requested one every value is staged, and otherwise every slot stays null.
pub fn build_vector(data_type: ConcreteType, vector: &TypeVector) -> (r: ColumnVector)
    ensures
        r is ArrowVector,
        r.wf(),
        r.spec_elem_type() == data_type,
        r@.len() == vector.spec_values().len(),
        forall|i: int|
            0 <= i < r@.len() ==> opt_view(#[trigger] r@[i]) == (
            if vector.spec_type() == data_type {
                Some(vector.spec_values()[i])
            } else {
                None
            }),
{
    match vector {
        TypeVector::Boolean(items) => {
            let mut b = ArrowVectorBuilder::new(data_type, items.len());
            let mut i: usize = 0;
            while i < items.len()
                invariant
                    i <= items@.len(),
                    b.data_type == data_type,
                    b.slots@.len() == items@.len(),
                    b.wf(),
                    *vector == TypeVector::Boolean(*items),
                    forall|j: int|
                        0 <= j < i ==> opt_view(#[trigger] b.slots@[j]) == (
                        if vector.spec_type() == data_type {
                            Some(vector.spec_values()[j])
                        } else {
                            None
                        }),
                decreases items@.len() - i,
            {
                b.set(i, Some(ArrowValue::BooleanType(items[i])));
                i = i + 1;
            }
            b.build()
        },
        TypeVector::Int8(items) => {
            let mut b = ArrowVectorBuilder::new(data_type, items.len());
            let mut i: usize = 0;
            while i < items.len()
                invariant
                    i <= items@.len(),
                    b.data_type == data_type,
                    b.slots@.len() == items@.len(),
                    b.wf(),
                    *vector == TypeVector::Int8(*items),
                    forall|j: int|
                        0 <= j < i ==> opt_view(#[trigger] b.slots@[j]) == (
                        if vector.spec_type() == data_type {
                            Some(vector.spec_values()[j])
                        } else {
                            None
                        }),
                decreases items@.len() - i,
            {
                b.set(i, Some(ArrowValue::Int8Type(items[i])));
                i = i + 1;
            }
            b.build()
        },
        TypeVector::Int16(items) => {
            let mut b = ArrowVectorBuilder::new(data_type, items.len());
            let mut i: usize = 0;
            while i < items.len()
                invariant
                    i <= items@.len(),
                    b.data_type == data_type,
                    b.slots@.len() == items@.len(),
                    b.wf(),
                    *vector == TypeVector::Int16(*items),
                    forall|j: int|
                        0 <= j < i ==> opt_view(#[trigger] b.slots@[j]) == (
                        if vector.spec_type() == data_type {
                            Some(vector.spec_values()[j])
                        } else {
                            None
                        }),
                decreases items@.len() - i,
            {
                b.set(i, Some(ArrowValue::Int16Type(items[i])));
                i = i + 1;
            }
            b.build()
        },
        TypeVector::Int32(items) => {
            let mut b = ArrowVectorBuilder::new(data_type, items.len());
            let mut i: usize = 0;
            while i < items.len()
                invariant
                    i <= items@.len(),
                    b.data_type == data_type,
                    b.slots@.len() == items@.len(),
                    b.wf(),
                    *vector == TypeVector::Int32(*items),
                    forall|j: int|
                        0 <= j < i ==> opt_view(#[trigger] b.slots@[j]) == (
                        if vector.spec_type() == data_type {
                            Some(vector.spec_values()[j])
                        } else {
                            None
                        }),
                decreases items@.len() - i,
            {
                b.set(i, Some(ArrowValue::Int32Type(items[i])));
                i = i + 1;
            }
            b.build()
        },
        TypeVector::Int64(items) => {
            let mut b = ArrowVectorBuilder::new(data_type, items.len());
            let mut i: usize = 0;
            while i < items.len()
                invariant
                    i <= items@.len(),
                    b.data_type == data_type,
                    b.slots@.len() == items@.len(),
                    b.wf(),
                    *vector == TypeVector::Int64(*items),
                    forall|j: int|
                        0 <= j < i ==> opt_view(#[trigger] b.slots@[j]) == (
                        if vector.spec_type() == data_type {
                            Some(vector.spec_values()[j])
                        } else {
                            None
                        }),
                decreases items@.len() - i,
            {
                b.set(i, Some(ArrowValue::Int64Type(items[i])));
                i = i + 1;
            }
            b.build()
        },
        TypeVector::UInt8(items) => {
            let mut b = ArrowVectorBuilder::new(data_type, items.len());
            let mut i: usize = 0;
            while i < items.len()
                invariant
                    i <= items@.len(),
                    b.data_type == data_type,
                    b.slots@.len() == items@.len(),
                    b.wf(),
                    *vector == TypeVector::UInt8(*items),
                    forall|j: int|
                        0 <= j < i ==> opt_view(#[trigger] b.slots@[j]) == (
                        if vector.spec_type() == data_type {
                            Some(vector.spec_values()[j])
                        } else {
                            None
                        }),
                decreases items@.len() - i,
            {
                b.set(i, Some(ArrowValue::UInt8Type(items[i])));
                i = i + 1;
            }
            b.build()
        },
        TypeVector::UInt16(items) => {
            let mut b = ArrowVectorBuilder::new(data_type, items.len());
            let mut i: usize = 0;
            while i < items.len()
                invariant
                    i <= items@.len(),
                    b.data_type == data_type,
                    b.slots@.len() == items@.len(),
                    b.wf(),
                    *vector == TypeVector::UInt16(*items),
                    forall|j: int|
                        0 <= j < i ==> opt_view(#[trigger] b.slots@[j]) == (
                        if vector.spec_type() == data_type {
                            Some(vector.spec_values()[j])
                        } else {
                            None
                        }),
                decreases items@.len() - i,
            {
                b.set(i, Some(ArrowValue::UInt16Type(items[i])));
                i = i + 1;
            }
            b.build()
        },
        TypeVector::UInt32(items) => {
            let mut b = ArrowVectorBuilder::new(data_type, items.len());
            let mut i: usize = 0;
            while i < items.len()
                invariant
                    i <= items@.len(),
                    b.data_type == data_type,
                    b.slots@.len() == items@.len(),
                    b.wf(),
                    *vector == TypeVector::UInt32(*items),
                    forall|j: int|
                        0 <= j < i ==> opt_view(#[trigger] b.slots@[j]) == (
                        if vector.spec_type() == data_type {
                            Some(vector.spec_values()[j])
                        } else {
                            None
                        }),
                decreases items@.len() - i,
            {
                b.set(i, Some(ArrowValue::UInt32Type(items[i])));
                i = i + 1;
            }
            b.build()
        },
        TypeVector::UInt64(items) => {
            let mut b = ArrowVectorBuilder::new(data_type, items.len());
            let mut i: usize = 0;
            while i < items.len()
                invariant
                    i <= items@.len(),
                    b.data_type == data_type,
                    b.slots@.len() == items@.len(),
                    b.wf(),
                    *vector == TypeVector::UInt64(*items),
                    forall|j: int|
                        0 <= j < i ==> opt_view(#[trigger] b.slots@[j]) == (
                        if vector.spec_type() == data_type {
                            Some(vector.spec_values()[j])
                        } else {
                            None
                        }),
                decreases items@.len() - i,
            {
                b.set(i, Some(ArrowValue::UInt64Type(items[i])));
                i = i + 1;
            }
            b.build()
        },
        TypeVector::Float(items) => {
            let mut b = ArrowVectorBuilder::new(data_type, items.len());
            let mut i: usize = 0;
            while i < items.len()
                invariant
                    i <= items@.len(),
                    b.data_type == data_type,
                    b.slots@.len() == items@.len(),
                    b.wf(),
                    *vector == TypeVector::Float(*items),
                    forall|j: int|
                        0 <= j < i ==> opt_view(#[trigger] b.slots@[j]) == (
                        if vector.spec_type() == data_type {
                            Some(vector.spec_values()[j])
                        } else {
                            None
                        }),
                decreases items@.len() - i,
            {
                b.set(i, Some(ArrowValue::FloatType(items[i])));
                i = i + 1;
            }
            b.build()
        },
        TypeVector::Double(items) => {
            let mut b = ArrowVectorBuilder::new(data_type, items.len());
            let mut i: usize = 0;
            while i < items.len()
                invariant
                    i <= items@.len(),
                    b.data_type == data_type,
                    b.slots@.len() == items@.len(),
                    b.wf(),
                    *vector == TypeVector::Double(*items),
                    forall|j: int|
                        0 <= j < i ==> opt_view(#[trigger] b.slots@[j]) == (
                        if vector.spec_type() == data_type {
                            Some(vector.spec_values()[j])
                        } else {
                            None
                        }),
                decreases items@.len() - i,
            {
                b.set(i, Some(ArrowValue::DoubleType(items[i])));
                i = i + 1;
            }
            b.build()
        },
        TypeVector::String(items) => {
            let mut b = ArrowVectorBuilder::new(data_type, items.len());
            let mut i: usize = 0;
            while i < items.len()
                invariant
                    i <= items@.len(),
                    b.data_type == data_type,
                    b.slots@.len() == items@.len(),
                    b.wf(),
                    *vector == TypeVector::String(*items),
                    forall|j: int|
                        0 <= j < i ==> opt_view(#[trigger] b.slots@[j]) == (
                        if vector.spec_type() == data_type {
                            Some(vector.spec_values()[j])
                        } else {
                            None
                        }),
                decreases items@.len() - i,
            {
                b.set(i, Some(ArrowValue::StringType(items[i].clone())));
                i = i + 1;
            }
            b.build()
        },
    }
}

} // verus!
