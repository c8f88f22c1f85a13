//! Field types, field values and their mathematical model.

use vstd::prelude::*;

verus! {

/// The wire type of a field: what the primitive codec is asked to read.
#[derive(Clone, Copy, Debug, PartialEq, Eq, Structural)]
pub enum FieldType {
    Bool,
    U8,
    U16,
    U32,
    U64,
    Str,
    OptU32,
}

/// The mathematical content of a field value. Text is a sequence of
/// characters; everything else is the value itself.
pub enum Datum {
    Bool(bool),
    U8(u8),
    U16(u16),
    U32(u32),
    U64(u64),
    Str(Seq<char>),
    OptU32(Option<u32>),
}

/// A field value as the decoder hands it out.
#[derive(Debug, PartialEq, Eq)]
pub enum Value {
    Bool(bool),
    U8(u8),
    U16(u16),
    U32(u32),
    U64(u64),
    Str(String),
    OptU32(Option<u32>),
}

impl Datum {
    /// The wire type that this value belongs to.
    pub open spec fn kind(self) -> FieldType {
        match self {
            Datum::Bool(_) => FieldType::Bool,
            Datum::U8(_) => FieldType::U8,
            Datum::U16(_) => FieldType::U16,
            Datum::U32(_) => FieldType::U32,
            Datum::U64(_) => FieldType::U64,
            Datum::Str(_) => FieldType::Str,
            Datum::OptU32(_) => FieldType::OptU32,
        }
    }
}

impl FieldType {
    /// The value a field of this type has when nothing else was configured:
    /// `false`, zero, the empty text, the absent option.
    pub open spec fn zero(self) -> Datum {
        match self {
            FieldType::Bool => Datum::Bool(false),
            FieldType::U8 => Datum::U8(0),
            FieldType::U16 => Datum::U16(0),
            FieldType::U32 => Datum::U32(0),
            FieldType::U64 => Datum::U64(0),
            FieldType::Str => Datum::Str(Seq::empty()),
            FieldType::OptU32 => Datum::OptU32(None),
        }
    }

    /// Builds the intrinsic default of this type.
    pub fn default_value(self) -> (v: Value)
        ensures
            v@ == self.zero(),
    {
        match self {
            FieldType::Bool => Value::Bool(false),
            FieldType::U8 => Value::U8(0),
            FieldType::U16 => Value::U16(0),
            FieldType::U32 => Value::U32(0),
            FieldType::U64 => Value::U64(0),
            FieldType::Str => Value::Str(String::new()),
            FieldType::OptU32 => Value::OptU32(None),
        }
    }
}

impl View for Value {
    type V = Datum;

    open spec fn view(&self) -> Datum {
        match self {
            Value::Bool(b) => Datum::Bool(*b),
            Value::U8(n) => Datum::U8(*n),
            Value::U16(n) => Datum::U16(*n),
            Value::U32(n) => Datum::U32(*n),
            Value::U64(n) => Datum::U64(*n),
            Value::Str(s) => Datum::Str(s@),
            Value::OptU32(o) => Datum::OptU32(*o),
        }
    }
}

impl Value {
    /// The wire type that this value belongs to.
    pub fn kind(&self) -> (t: FieldType)
        ensures
            t == self@.kind(),
    {
        match self {
            Value::Bool(_) => FieldType::Bool,
            Value::U8(_) => FieldType::U8,
            Value::U16(_) => FieldType::U16,
            Value::U32(_) => FieldType::U32,
            Value::U64(_) => FieldType::U64,
            Value::Str(_) => FieldType::Str,
            Value::OptU32(_) => FieldType::OptU32,
        }
    }
}

impl Clone for Value {
    fn clone(&self) -> (copy: Self)
        ensures
            copy@ == self@,
    {
        match self {
            Value::Bool(b) => Value::Bool(*b),
            Value::U8(n) => Value::U8(*n),
            Value::U16(n) => Value::U16(*n),
            Value::U32(n) => Value::U32(*n),
            Value::U64(n) => Value::U64(*n),
            Value::Str(s) => Value::Str(s.clone()),
            Value::OptU32(o) => Value::OptU32(*o),
        }
    }
}

} // verus!
