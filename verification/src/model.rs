//! What decoding a record means, for plans whose fields are all read with
//! the primitive codec: a function from the plan and the input to the
//! values.

use crate::plan::FieldSpec;
use crate::value::Datum;
use crate::wire::{encodable, encoding, parse};
use vstd::prelude::*;

verus! {

/// The value a field ends up with: what was read, where something was read
/// and it is of the field's type, and the field's fallback otherwise.
pub open spec fn settled(read: Option<Datum>, field: FieldSpec) -> Datum {
    match read {
        Some(d) => if d.kind() == field.ty {
            d
        } else {
            field.default
        },
        None => field.default,
    }
}

/// The unread input at the moment field `i` is about to be read: the whole
/// input for the first field, and for each later one whatever the read of
/// the field before it left, whether that read succeeded or not.
pub open spec fn cursor_at(fields: Seq<FieldSpec>, input: Seq<u8>, i: nat) -> Seq<u8>
    decreases i,
{
    if i == 0 {
        input
    } else {
        parse(fields[i - 1].ty, cursor_at(fields, input, (i - 1) as nat)).rest
    }
}

/// The value of field `i` when `input` is decoded by `fields`.
pub open spec fn value_at(fields: Seq<FieldSpec>, input: Seq<u8>, i: nat) -> Datum {
    settled(parse(fields[i as int].ty, cursor_at(fields, input, i)).value, fields[i as int])
}

/// The record that decoding `input` by `fields` gives.
pub open spec fn decode_fields(fields: Seq<FieldSpec>, input: Seq<u8>) -> Seq<Datum> {
    Seq::new(fields.len(), |i: int| value_at(fields, input, i as nat))
}

/// The record in which every field has its fallback.
pub open spec fn defaults(fields: Seq<FieldSpec>) -> Seq<Datum> {
    Seq::new(fields.len(), |i: int| fields[i].default)
}

/// The bytes that stand for a record: the encodings of its values, one after
/// the other, with nothing between them.
pub open spec fn encode_fields(values: Seq<Datum>) -> Seq<u8>
    decreases values.len(),
{
    if values.len() == 0 {
        Seq::empty()
    } else {
        encode_fields(values.drop_last()) + encoding(values.last())
    }
}

/// Whether `values` is a record of the shape that `fields` describes, and
/// one that can be written.
pub open spec fn conforms(fields: Seq<FieldSpec>, values: Seq<Datum>) -> bool {
    &&& values.len() == fields.len()
    &&& forall|i: int|
        0 <= i < values.len() ==> (#[trigger] values[i]).kind() == fields[i].ty && encodable(
            values[i],
        )
}

} // verus!
