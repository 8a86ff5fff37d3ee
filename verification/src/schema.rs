//! Schemas: ordered, name-addressed lists of typed fields, with projection
//! by index and selection by name.

use vstd::prelude::*;
use crate::errors::EngineError;
use crate::value::ConcreteType;

verus! {

/// The mathematical content of a field: its name and type.
pub struct FieldView {
    pub name: Seq<char>,
    pub data_type: ConcreteType,
}

/// A named, typed column slot of a schema.
pub struct Field {
    pub name: String,
    pub data_type: ConcreteType,
}

impl View for Field {
    type V = FieldView;

    open spec fn view(&self) -> FieldView {
        FieldView { name: self.name@, data_type: self.data_type }
    }
}

impl Field {
    /// A field with the given name and type.
    pub fn new(string: &str, data_type: ConcreteType) -> (f: Field)
        ensures
            f@.name == string@,
            f@.data_type == data_type,
    {
        Field { name: String::from_str(string), data_type }
    }
}

impl Clone for Field {
    fn clone(&self) -> (r: Field)
        ensures
            r@ == self@,
    {
        Field { name: self.name.clone(), data_type: self.data_type }
    }
}

/// An ordered list of fields.
pub struct Schema {
    pub fields: Vec<Field>,
}

impl View for Schema {
    type V = Seq<FieldView>;

    open spec fn view(&self) -> Seq<FieldView> {
        self.fields@.map_values(|f: Field| f@)
    }
}

/// How many fields of `s` bear the name `name`.
pub open spec fn matches_count(s: Seq<FieldView>, name: Seq<char>) -> nat
    decreases s.len(),
{
    if s.len() == 0 {
        0
    } else {
        matches_count(s.drop_last(), name) + (if s.last().name == name {
            1nat
        } else {
            0nat
        })
    }
}

/// The selection is well-posed: every requested name addresses exactly one
/// field, and no name is requested twice.
pub open spec fn selectable(s: Seq<FieldView>, names: Seq<String>) -> bool {
    &&& forall|j: int| 0 <= j < names.len() ==> matches_count(s, (#[trigger] names[j])@) == 1
    &&& forall|j: int, k: int|
        0 <= j < k < names.len() ==> (#[trigger] names[j])@ != (#[trigger] names[k])@
}

/// Decides whether the names are pairwise distinct.
pub(crate) fn all_distinct(names: &Vec<String>) -> (r: bool)
    ensures
        r == (forall|j: int, k: int|
            0 <= j < k < names@.len() ==> (#[trigger] names@[j])@ != (#[trigger] names@[k])@),
{
    let mut j: usize = 1;
    while j < names.len()
        invariant
            1 <= j || names@.len() == 0,
            j <= names@.len() || names@.len() == 0,
            forall|p: int, q: int|
                0 <= p < q < j ==> (#[trigger] names@[p])@ != (#[trigger] names@[q])@,
        decreases names@.len() - j,
    {
        let mut k: usize = 0;
        while k < j
            invariant
                k <= j < names@.len(),
                forall|p: int| 0 <= p < k ==> (#[trigger] names@[p])@ != names@[j as int]@,
            decreases j - k,
        {
            if names[k].eq(&names[j]) {
                proof {
                    assert(names@[k as int]@ == names@[j as int]@);
                }
                return false;
            }
            k = k + 1;
        }
        j = j + 1;
    }
    true
}

/// Some field of `src` bears `name`, and `out` is such a field.
pub open spec fn selected_from(src: Seq<FieldView>, name: Seq<char>, out: FieldView) -> bool {
    exists|i: int| 0 <= i < src.len() && (#[trigger] src[i]).name == name && out == src[i]
}

impl Clone for Schema {
    fn clone(&self) -> (r: Schema)
        ensures
            r@ == self@,
    {
        let mut fields: Vec<Field> = Vec::new();
        let mut i: usize = 0;
        while i < self.fields.len()
            invariant
                i <= self.fields@.len(),
                fields@.len() == i,
                forall|k: int| 0 <= k < i ==> (#[trigger] fields@[k])@ == self.fields@[k]@,
            decreases self.fields@.len() - i,
        {
            fields.push(self.fields[i].clone());
            i = i + 1;
        }
        let r = Schema { fields };
        proof {
            assert(r@ =~= self@);
        }
        r
    }
}

impl Schema {
    /// The number of fields.
    pub fn len(&self) -> (n: usize)
        ensures
            n as nat == self@.len(),
    {
        self.fields.len()
    }

    /// A new schema holding, in order, the fields at the given indices;
    /// the caller guarantees the indices are valid, so projection never
    /// fails.
    pub fn project(&self, indices: &Vec<usize>) -> (r: Schema)
        requires
            forall|j: int| 0 <= j < indices@.len() ==> indices@[j] < self@.len(),
        ensures
            r@.len() == indices@.len(),
            forall|j: int| 0 <= j < indices@.len() ==> r@[j] == self@[indices@[j] as int],
    {
        let mut fields: Vec<Field> = Vec::new();
        let mut i: usize = 0;
        while i < indices.len()
            invariant
                i <= indices@.len(),
                forall|j: int| 0 <= j < indices@.len() ==> indices@[j] < self@.len(),
                fields@.len() == i,
                forall|j: int|
                    0 <= j < i ==> fields@.map_values(|f: Field| f@)[j] == self@[indices@[j] as int],
            decreases indices.len() - i,
        {
            fields.push(self.fields[indices[i]].clone());
            i = i + 1;
        }
        Schema { fields }
    }

    /// A new schema holding, in requested order, the single field matching
    /// each requested name. Fails with `AmbiguousOrMissingField` exactly when
    /// some requested name matches no field or several, or one name is
    /// requested twice — a selection never produces a duplicated field.
    pub fn select(&self, names: &Vec<String>) -> (r: Result<Schema, EngineError>)
        ensures
            r is Ok <==> selectable(self@, names@),
            r matches Ok(s) ==> {
                &&& s@.len() == names@.len()
                &&& forall|j: int|
                    0 <= j < names@.len() ==> selected_from(self@, (#[trigger] names@[j])@, s@[j])
            },
            r matches Err(e) ==> e == EngineError::AmbiguousOrMissingField,
    {
        if !all_distinct(names) {
            return Err(EngineError::AmbiguousOrMissingField);
        }
        let mut fields: Vec<Field> = Vec::new();
        let mut j: usize = 0;
        while j < names.len()
            invariant
                j <= names@.len(),
                fields@.len() == j,
                forall|p: int, q: int|
                    0 <= p < q < names@.len() ==> (#[trigger] names@[p])@ != (#[trigger] names@[
                        q
                    ])@,
                forall|q: int| 0 <= q < j ==> matches_count(self@, names@[q]@) == 1,
                forall|q: int|
                    0 <= q < j ==> selected_from(self@, (#[trigger] names@[q])@, fields@[q]@),
            decreases names.len() - j,
        {
            match self.find_unique(&names[j]) {
                Option::Some(f) => {
                    fields.push(f);
                },
                Option::None => {
                    return Err(EngineError::AmbiguousOrMissingField);
                },
            }
            j = j + 1;
        }
        let r = Schema { fields };
        proof {
            assert forall|q: int| 0 <= q < names@.len() implies selected_from(
                self@,
                (#[trigger] names@[q])@,
                r@[q],
            ) by {
                assert(r@[q] == fields@[q]@);
            }
        }
        Ok(r)
    }

    /// The index of the single field named `name`, or `None` when there is
    /// no such field or more than one.
    pub fn index_of_unique(&self, name: &String) -> (r: Option<usize>)
        ensures
            r is Some <==> matches_count(self@, name@) == 1,
            r matches Some(i) ==> i < self@.len() && self@[i as int].name == name@,
    {
        let mut found: Option<usize> = Option::None;
        let mut count: usize = 0;
        let mut i: usize = 0;
        while i < self.fields.len()
            invariant
                i <= self.fields@.len(),
                count as nat == matches_count(self@.take(i as int), name@),
                count > 0 <==> found is Some,
                found matches Some(q) ==> q < self@.len() && self@[q as int].name == name@,
                count <= i,
            decreases self.fields@.len() - i,
        {
            let ghost pre: Seq<FieldView> = self@.take(i as int);
            let ghost post: Seq<FieldView> = self@.take(i + 1);
            proof {
                assert(post.drop_last() =~= pre);
                assert(post.last() == self@[i as int]);
            }
            if self.fields[i].name.eq(name) {
                found = Option::Some(i);
                count = count + 1;
            }
            i = i + 1;
        }
        proof {
            assert(self@.take(self@.len() as int) =~= self@);
        }
        if count == 1 {
            found
        } else {
            Option::None
        }
    }

    /// The single field named `name`, or `None` when there is no such field
    /// or more than one.
    fn find_unique(&self, name: &String) -> (r: Option<Field>)
        ensures
            r is Some <==> matches_count(self@, name@) == 1,
            r matches Some(f) ==> selected_from(self@, name@, f@),
    {
        let mut found: Option<Field> = Option::None;
        let mut count: usize = 0;
        let mut i: usize = 0;
        while i < self.fields.len()
            invariant
                i <= self.fields@.len(),
                count as nat == matches_count(self@.take(i as int), name@),
                count > 0 <==> found is Some,
                found matches Some(f) ==> selected_from(self@, name@, f@),
                count <= i,
            decreases self.fields@.len() - i,
        {
            let ghost pre: Seq<FieldView> = self@.take(i as int);
            let ghost post: Seq<FieldView> = self@.take(i + 1);
            proof {
                assert(post.drop_last() =~= pre);
                assert(post.last() == self@[i as int]);
            }
            if self.fields[i].name.eq(name) {
                found = Option::Some(self.fields[i].clone());
                count = count + 1;
            }
            i = i + 1;
        }
        proof {
            assert(self@.take(self@.len() as int) =~= self@);
        }
        if count == 1 {
            found
        } else {
            Option::None
        }
    }
}

} // verus!
