//! Field descriptors and decode plans: the static description of a record.
//!
//! A plan is built once, field by field in declaration order, and then used
//! for any number of decodes. It is never reordered: the order of its fields
//! is the order of their values on the wire.

use crate::value::{Datum, FieldType, Value};
use vstd::prelude::*;

verus! {

/// How a field is read from the cursor.
pub enum Strategy<F> {
    /// With the primitive codec, by the field's type.
    Primitive,
    /// With a function of the caller's, which is given the unread input and
    /// hands back what it read, or its failure, and the input it left.
    Custom(F),
}

/// Why a descriptor or a plan was refused.
#[derive(Clone, Copy, Debug, PartialEq, Eq, Structural)]
pub enum PlanError {
    /// The default value is not of the field's declared type.
    DefaultTypeMismatch,
    /// The plan already has a field of that name.
    DuplicateName,
}

/// What the decoder has to know of a field whatever its strategy: its type
/// and its fallback value.
pub struct FieldSpec {
    pub ty: FieldType,
    pub default: Datum,
}

/// One field of a record: its name, its type, how it is read, and the value
/// it takes when it cannot be read.
pub struct FieldDescriptor<F> {
    pub name: String,
    pub value_type: FieldType,
    pub strategy: Strategy<F>,
    pub default: Value,
}

impl<F> FieldDescriptor<F> {
    /// The type and fallback of this field.
    pub open spec fn spec(&self) -> FieldSpec {
        FieldSpec { ty: self.value_type, default: self.default@ }
    }

    /// A descriptor is well formed when its fallback is of its own type.
    pub open spec fn wf(&self) -> bool {
        self.default@.kind() == self.value_type
    }

    /// A field read with the primitive codec, falling back to the intrinsic
    /// default of its type.
    pub fn primitive(name: &str, value_type: FieldType) -> (field: Self)
        ensures
            field.name@ == name@,
            field.value_type == value_type,
            field.strategy is Primitive,
            field.default@ == value_type.zero(),
            field.wf(),
    {
        FieldDescriptor {
            name: name.to_owned(),
            value_type,
            strategy: Strategy::Primitive,
            default: value_type.default_value(),
        }
    }

    /// A field read with `decode`, falling back to the intrinsic default of
    /// its type.
    pub fn custom(name: &str, value_type: FieldType, decode: F) -> (field: Self)
        ensures
            field.name@ == name@,
            field.value_type == value_type,
            field.strategy == Strategy::Custom(decode),
            field.default@ == value_type.zero(),
            field.wf(),
    {
        FieldDescriptor {
            name: name.to_owned(),
            value_type,
            strategy: Strategy::Custom(decode),
            default: value_type.default_value(),
        }
    }

    /// Replaces the fallback by `default`, which must be of the field's type.
    pub fn with_default(self, default: Value) -> (result: Result<Self, PlanError>)
        ensures
            default@.kind() == self.value_type <==> result is Ok,
            result is Ok ==> result->Ok_0 == (FieldDescriptor {
                name: self.name,
                value_type: self.value_type,
                strategy: self.strategy,
                default: default,
            }) && result->Ok_0.wf(),
            result is Err ==> result->Err_0 == PlanError::DefaultTypeMismatch,
    {
        if default.kind() == self.value_type {
            Ok(
                FieldDescriptor {
                    name: self.name,
                    value_type: self.value_type,
                    strategy: self.strategy,
                    default,
                },
            )
        } else {
            Err(PlanError::DefaultTypeMismatch)
        }
    }
}

/// The ordered fields of one record type.
pub struct DecodePlan<F> {
    pub fields: Vec<FieldDescriptor<F>>,
}

impl<F> DecodePlan<F> {
    /// Type and fallback of each field, in order.
    pub open spec fn specs(&self) -> Seq<FieldSpec> {
        Seq::new(self.fields@.len(), |i: int| self.fields@[i].spec())
    }

    /// Whether every field is read with the primitive codec.
    pub open spec fn all_primitive(&self) -> bool {
        forall|i: int| 0 <= i < self.fields@.len() ==> (#[trigger] self.fields@[i]).strategy is Primitive
    }

    /// Whether some field of the plan is called `name`.
    pub open spec fn has_name(&self, name: Seq<char>) -> bool {
        exists|i: int| 0 <= i < self.fields@.len() && (#[trigger] self.fields@[i]).name@ == name
    }

    /// A plan is well formed when every field is and no name occurs twice.
    pub open spec fn wf(&self) -> bool {
        &&& forall|i: int| 0 <= i < self.fields@.len() ==> (#[trigger] self.fields@[i]).wf()
        &&& forall|i: int, j: int|
            0 <= i < j < self.fields@.len() ==> (#[trigger] self.fields@[i]).name@ != (
            #[trigger] self.fields@[j]).name@
    }

    /// The plan of a record without fields.
    pub fn new() -> (plan: Self)
        ensures
            plan.fields@.len() == 0,
            plan.wf(),
            plan.all_primitive(),
    {
        DecodePlan { fields: Vec::new() }
    }

    /// The number of fields.
    pub fn len(&self) -> (n: usize)
        ensures
            n == self.fields@.len(),
    {
        self.fields.len()
    }

    /// The index of the field called `name`, if the plan has one.
    pub fn position(&self, name: &str) -> (found: Option<usize>)
        ensures
            found is Some <==> self.has_name(name@),
            found is Some ==> {
                let i = found->Some_0 as int;
                &&& i < self.fields@.len()
                &&& self.fields@[i].name@ == name@
                &&& forall|j: int| 0 <= j < i ==> (#[trigger] self.fields@[j]).name@ != name@
            },
    {
        let wanted = name.to_owned();
        let mut i: usize = 0;
        while i < self.fields.len()
            invariant
                i <= self.fields@.len(),
                wanted@ == name@,
                forall|j: int| 0 <= j < i ==> (#[trigger] self.fields@[j]).name@ != name@,
            decreases self.fields@.len() - i,
        {
            if self.fields[i].name == wanted {
                return Some(i);
            }
            i += 1;
        }
        None
    }

    /// Appends `field` as the last field of the plan, unless its fallback is
    /// not of its type or its name is taken; the plan is then left as it was.
    pub fn push(&mut self, field: FieldDescriptor<F>) -> (result: Result<(), PlanError>)
        ensures
            match result {
                Ok(_) => {
                    &&& field.wf()
                    &&& !old(self).has_name(field.name@)
                    &&& final(self).fields@ == old(self).fields@.push(field)
                },
                Err(PlanError::DefaultTypeMismatch) => {
                    &&& !field.wf()
                    &&& *final(self) == *old(self)
                },
                Err(PlanError::DuplicateName) => {
                    &&& field.wf()
                    &&& old(self).has_name(field.name@)
                    &&& *final(self) == *old(self)
                },
            },
            old(self).wf() ==> final(self).wf(),
    {
        if field.default.kind() != field.value_type {
            return Err(PlanError::DefaultTypeMismatch);
        }
        if self.position(field.name.as_str()).is_some() {
            return Err(PlanError::DuplicateName);
        }
        self.fields.push(field);
        Ok(())
    }
}

} // verus!
