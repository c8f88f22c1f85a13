//! The record decoder: one pass over the plan, one read per field, a
//! fallback for every read that fails, no backtracking.

use crate::codec::read_primitive;
use crate::model::{cursor_at, decode_fields, settled, value_at};
use crate::plan::{DecodePlan, FieldDescriptor, FieldSpec, Strategy};
use crate::value::{Datum, FieldType, Value};
use crate::wire::parse;
use vstd::prelude::*;

verus! {

/// A decoded record: one value per field of the plan, in the plan's order.
#[derive(Debug, PartialEq, Eq)]
pub struct Record {
    pub values: Vec<Value>,
}

impl View for Record {
    type V = Seq<Datum>;

    open spec fn view(&self) -> Seq<Datum> {
        Seq::new(self.values@.len(), |i: int| self.values@[i]@)
    }
}

impl Record {
    /// The number of values, which is the number of fields of the plan.
    pub fn len(&self) -> (n: usize)
        ensures
            n == self@.len(),
    {
        self.values.len()
    }

    /// The value of field `index`, if the record has that many fields.
    pub fn get(&self, index: usize) -> (value: Option<&Value>)
        ensures
            index < self@.len() ==> value == Some(&self.values@[index as int]),
            index >= self@.len() ==> value is None,
    {
        if index < self.values.len() {
            Some(&self.values[index])
        } else {
            None
        }
    }
}

/// The content of what a read handed back.
pub open spec fn value_read(read: Option<Value>) -> Option<Datum> {
    match read {
        Some(v) => Some(v@),
        None => None,
    }
}

/// What a custom decode function handed back, with its error forgotten.
pub open spec fn value_returned<X>(result: Result<Value, X>) -> Option<Datum> {
    match result {
        Ok(v) => Some(v@),
        Err(_) => None,
    }
}

/// Turns the outcome of a read into the field's value: the value read, or a
/// copy of `default` where the read failed or gave a value of another type.
pub fn or_default(read: Option<Value>, value_type: FieldType, default: &Value) -> (value: Value)
    ensures
        value@ == settled(value_read(read), (FieldSpec { ty: value_type, default: default@ })),
{
    match read {
        Some(v) => if v.kind() == value_type {
            v
        } else {
            default.clone()
        },
        None => default.clone(),
    }
}

impl<F> FieldDescriptor<F> {
    /// Whether reading this field with the cursor at `before` can give
    /// `value` and leave the cursor at `after`. For a primitive field one
    /// value and one cursor qualify, those of the wire format. For a custom
    /// field those qualify that the function may hand back on `before`.
    pub open spec fn step<X>(&self, before: &[u8], value: Datum, after: &[u8]) -> bool where
        F: Fn(&[u8]) -> (Result<Value, X>, &[u8]),
     {
        match self.strategy {
            Strategy::Primitive => {
                &&& after@ == parse(self.value_type, before@).rest
                &&& value == settled(parse(self.value_type, before@).value, self.spec())
            },
            Strategy::Custom(f) => exists|out: (Result<Value, X>, &[u8])|
                {
                    &&& call_ensures(f, (before,), out)
                    &&& after == out.1
                    &&& value == settled(value_returned(out.0), self.spec())
                },
        }
    }
}

/// Reads one field at `cursor`. Returns the field's value, which is the
/// fallback if the read failed, and the cursor as the read left it.
pub fn decode_field<'a, F, X>(field: &FieldDescriptor<F>, cursor: &'a [u8]) -> (out: (
    Value,
    &'a [u8],
)) where F: Fn(&[u8]) -> (Result<Value, X>, &[u8])
    requires
        field.strategy is Custom ==> call_requires(field.strategy->Custom_0, (cursor,)),
    ensures
        field.step(cursor, out.0@, out.1),
{
    match &field.strategy {
        Strategy::Primitive => {
            let (read, rest) = read_primitive(field.value_type, cursor);
            (or_default(read, field.value_type, &field.default), rest)
        },
        Strategy::Custom(f) => {
            let (result, rest) = f(cursor);
            let ghost given = (result, rest);
            let read = match result {
                Ok(v) => Some(v),
                Err(_) => None,
            };
            assert(value_read(read) == value_returned(given.0));
            (or_default(read, field.value_type, &field.default), rest)
        },
    }
}

impl<F> DecodePlan<F> {
    /// Whether every custom decode function of the plan can be called on
    /// every input.
    pub open spec fn callable<X>(&self) -> bool where
        F: Fn(&[u8]) -> (Result<Value, X>, &[u8]),
     {
        forall|i: int, cursor: &[u8]|
            0 <= i < self.fields@.len() && self.fields@[i].strategy is Custom
                ==> #[trigger] call_requires(self.fields@[i].strategy->Custom_0, (cursor,))
    }

    /// Whether `cursors` is a run of the plan over `buffer` that gives
    /// `record`: it starts at the whole buffer, and each field, read at its
    /// cursor, can give its value in `record` and leave the next cursor.
    pub open spec fn follows<X>(
        &self,
        buffer: &[u8],
        record: Seq<Datum>,
        cursors: Seq<&[u8]>,
    ) -> bool where F: Fn(&[u8]) -> (Result<Value, X>, &[u8]) {
        &&& record.len() == self.fields@.len()
        &&& cursors.len() == self.fields@.len() + 1
        &&& cursors[0] == buffer
        &&& forall|i: int|
            0 <= i < self.fields@.len() ==> (#[trigger] self.fields@[i]).step(
                cursors[i],
                record[i],
                cursors[i + 1],
            )
    }

    /// Whether `record` has one value for each field of the plan, of that
    /// field's type.
    pub open spec fn shapes(&self, record: Seq<Datum>) -> bool {
        &&& record.len() == self.fields@.len()
        &&& forall|i: int|
            0 <= i < record.len() ==> (#[trigger] record[i]).kind() == self.fields@[i].value_type
    }

    /// Whether decoding `buffer` by this plan can give `record`.
    pub open spec fn explains<X>(&self, buffer: &[u8], record: Seq<Datum>) -> bool where
        F: Fn(&[u8]) -> (Result<Value, X>, &[u8]),
     {
        exists|cursors: Seq<&[u8]>| self.follows(buffer, record, cursors)
    }
}

/// Decodes one record from `buffer`: every field of the plan in order, each
/// read where the one before it stopped, each falling back to its default
/// when it cannot be read. Bytes left after the last field are ignored.
pub fn decode_record<F, X>(plan: &DecodePlan<F>, buffer: &[u8]) -> (record: Record) where
    F: Fn(&[u8]) -> (Result<Value, X>, &[u8]),

    requires
        plan.callable(),
    ensures
        plan.explains(buffer, record@),
        plan.all_primitive() ==> record@ == decode_fields(plan.specs(), buffer@),
        plan.wf() ==> plan.shapes(record@),
{
    let mut values: Vec<Value> = Vec::new();
    let mut cursor: &[u8] = buffer;
    let ghost mut cursors: Seq<&[u8]> = seq![buffer];
    let mut i: usize = 0;
    while i < plan.fields.len()
        invariant
            i <= plan.fields@.len(),
            plan.callable(),
            values@.len() == i,
            cursors.len() == i + 1,
            cursors[0] == buffer,
            cursors[i as int] == cursor,
            forall|j: int|
                0 <= j < i ==> (#[trigger] plan.fields@[j]).step(
                    cursors[j],
                    values@[j]@,
                    cursors[j + 1],
                ),
            plan.all_primitive() ==> cursor@ == cursor_at(plan.specs(), buffer@, i as nat),
            plan.all_primitive() ==> forall|j: int|
                0 <= j < i ==> (#[trigger] values@[j])@ == value_at(
                    plan.specs(),
                    buffer@,
                    j as nat,
                ),
        decreases plan.fields@.len() - i,
    {
        let (value, rest) = decode_field(&plan.fields[i], cursor);
        proof {
            cursors = cursors.push(rest);
        }
        values.push(value);
        cursor = rest;
        i += 1;
    }
    let record = Record { values };
    proof {
        assert(plan.follows(buffer, record@, cursors));
        if plan.wf() {
            assert forall|j: int| 0 <= j < record@.len() implies (#[trigger] record@[j]).kind()
                == plan.fields@[j].value_type by {
                assert(plan.fields@[j].wf());
                assert(plan.fields@[j].step(cursors[j], record@[j], cursors[j + 1]));
            }
        }
        if plan.all_primitive() {
            assert(record@ =~= decode_fields(plan.specs(), buffer@));
        }
    }
    record
}

/// Decodes one record from `buffer`, as [`decode_record`] does, and hands it
/// out through the error channel `E` that the record type declares. No
/// input makes it fail: what cannot be read is replaced, never reported.
pub fn decode<E, F, X>(plan: &DecodePlan<F>, buffer: &[u8]) -> (result: Result<Record, E>) where
    F: Fn(&[u8]) -> (Result<Value, X>, &[u8]),

    requires
        plan.callable(),
    ensures
        result is Ok,
        plan.explains(buffer, result->Ok_0@),
        plan.all_primitive() ==> result->Ok_0@ == decode_fields(plan.specs(), buffer@),
        plan.wf() ==> plan.shapes(result->Ok_0@),
{
    Ok(decode_record(plan, buffer))
}

} // verus!
