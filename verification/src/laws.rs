//! Laws of decoding with the primitive codec, proved of the model in
//! [`crate::model`], to which [`crate::decoder::decode`] is held for every
//! plan without custom decode functions.

use crate::model::{conforms, cursor_at, decode_fields, defaults, encode_fields, value_at};
use crate::plan::{DecodePlan, FieldSpec};
use crate::value::{Datum, Value};
use crate::wire::{encoding, lemma_parse_encoding, lemma_parse_nothing, lemma_parse_truncated};
use vstd::prelude::*;

verus! {

/// The bytes of a record in two parts are the bytes of the first part
/// followed by the bytes of the second.
pub proof fn lemma_encode_concat(front: Seq<Datum>, back: Seq<Datum>)
    ensures
        encode_fields(front + back) == encode_fields(front) + encode_fields(back),
    decreases back.len(),
{
    if back.len() == 0 {
        assert(front + back =~= front);
        assert(encode_fields(front) + encode_fields(back) =~= encode_fields(front));
    } else {
        lemma_encode_concat(front, back.drop_last());
        assert((front + back).drop_last() =~= front + back.drop_last());
        assert(encode_fields(front + back) =~= encode_fields(front) + encode_fields(back));
    }
}

/// The offset at which field `j` of a written record ends: the length of
/// the bytes that stand for the fields up to and including it.
pub open spec fn end_offset(values: Seq<Datum>, j: int) -> nat {
    encode_fields(values.take(j + 1)).len()
}

/// A record's bytes are its first `m` fields' bytes followed by those of the
/// others; and the others', where there are any, start with the bytes of
/// field `m`.
proof fn lemma_encode_split(values: Seq<Datum>, m: int)
    requires
        0 <= m <= values.len(),
    ensures
        encode_fields(values) == encode_fields(values.take(m)) + encode_fields(values.skip(m)),
        m < values.len() ==> encode_fields(values.skip(m)) == encoding(values[m]) + encode_fields(
            values.skip(m + 1),
        ),
        m < values.len() ==> encode_fields(values.take(m + 1)) == encode_fields(values.take(m))
            + encoding(values[m]),
{
    assert(values =~= values.take(m) + values.skip(m));
    lemma_encode_concat(values.take(m), values.skip(m));
    if m < values.len() {
        let one = seq![values[m]];
        assert(values.skip(m) =~= one + values.skip(m + 1));
        lemma_encode_concat(one, values.skip(m + 1));
        assert(one.drop_last() =~= Seq::<Datum>::empty());
        assert(encode_fields(one.drop_last()) =~= Seq::<u8>::empty());
        assert(one.last() == values[m]);
        assert(encode_fields(one) =~= encoding(values[m]));
        assert(values.take(m + 1) =~= values.take(m) + one);
        lemma_encode_concat(values.take(m), one);
    }
}

/// Whole fields are read as they were written: when the input starts with
/// the bytes of the first `m` fields of a record, those fields decode to
/// their written values, and the cursor then stands at what follows.
pub proof fn lemma_reads_whole_fields(
    fields: Seq<FieldSpec>,
    values: Seq<Datum>,
    m: nat,
    tail: Seq<u8>,
)
    requires
        conforms(fields, values),
        m <= values.len(),
    ensures
        cursor_at(fields, encode_fields(values.take(m as int)) + tail, m) == tail,
        forall|j: int|
            0 <= j < m ==> value_at(fields, encode_fields(values.take(m as int)) + tail, j as nat)
                == #[trigger] values[j],
    decreases m,
{
    let input = encode_fields(values.take(m as int)) + tail;
    if m == 0 {
        assert(input =~= tail);
    } else {
        let last = values[m - 1];
        let before = encoding(last) + tail;
        lemma_encode_split(values, m - 1);
        assert(input =~= encode_fields(values.take(m - 1)) + before);
        lemma_reads_whole_fields(fields, values, (m - 1) as nat, before);
        lemma_parse_encoding(last, tail);
        assert(value_at(fields, input, (m - 1) as nat) == last);
    }
}

/// Once the cursor is empty it stays empty, and every field read from then
/// on takes its fallback.
pub proof fn lemma_exhausted(fields: Seq<FieldSpec>, input: Seq<u8>, from: nat, i: nat)
    requires
        from <= i <= fields.len(),
        cursor_at(fields, input, from).len() == 0,
    ensures
        cursor_at(fields, input, i).len() == 0,
        i < fields.len() ==> value_at(fields, input, i) == fields[i as int].default,
    decreases i,
{
    if i > from {
        lemma_exhausted(fields, input, from, (i - 1) as nat);
        assert(cursor_at(fields, input, (i - 1) as nat) =~= Seq::<u8>::empty());
        lemma_parse_nothing(fields[i - 1].ty);
    }
    if i < fields.len() {
        assert(cursor_at(fields, input, i) =~= Seq::<u8>::empty());
        lemma_parse_nothing(fields[i as int].ty);
    }
}

/// Empty input: decoding no bytes at all gives every field its fallback.
pub proof fn lemma_empty_input_gives_defaults(fields: Seq<FieldSpec>)
    ensures
        decode_fields(fields, Seq::empty()) == defaults(fields),
{
    assert forall|i: int| 0 <= i < fields.len() implies value_at(
        fields,
        Seq::empty(),
        i as nat,
    ) == fields[i].default by {
        lemma_exhausted(fields, Seq::empty(), 0, i as nat);
    }
    assert(decode_fields(fields, Seq::empty()) =~= defaults(fields));
}

/// Trailing bytes are ignored: the bytes of a record, followed by anything,
/// decode to that record, as the bytes alone do.
pub proof fn lemma_trailing_bytes_ignored(
    fields: Seq<FieldSpec>,
    values: Seq<Datum>,
    extra: Seq<u8>,
)
    requires
        conforms(fields, values),
    ensures
        decode_fields(fields, encode_fields(values) + extra) == values,
        decode_fields(fields, encode_fields(values) + extra) == decode_fields(
            fields,
            encode_fields(values),
        ),
{
    let n = values.len();
    assert(values.take(n as int) =~= values);
    lemma_reads_whole_fields(fields, values, n, extra);
    assert(decode_fields(fields, encode_fields(values) + extra) =~= values);
    lemma_reads_whole_fields(fields, values, n, Seq::empty());
    assert(encode_fields(values) + Seq::<u8>::empty() =~= encode_fields(values));
    assert(decode_fields(fields, encode_fields(values)) =~= values);
}

/// Round trip: a record that was written field by field in the plan's order
/// decodes to itself.
pub proof fn lemma_round_trip(fields: Seq<FieldSpec>, values: Seq<Datum>)
    requires
        conforms(fields, values),
    ensures
        decode_fields(fields, encode_fields(values)) == values,
{
    lemma_trailing_bytes_ignored(fields, values, Seq::empty());
}

/// Among the fields of a written record, those that end within the first
/// `k` bytes come first: some `m` parts the fields that end by `k` from
/// those that end after it.
proof fn lemma_boundary(values: Seq<Datum>, k: nat, upto: nat) -> (m: nat)
    requires
        upto <= values.len(),
        forall|j: int| upto <= j < values.len() ==> end_offset(values, j) > k,
    ensures
        m <= values.len(),
        encode_fields(values.take(m as int)).len() <= k,
        forall|j: int| 0 <= j < m ==> end_offset(values, j) <= k,
        forall|j: int| m <= j < values.len() ==> end_offset(values, j) > k,
    decreases upto,
{
    if upto == 0 {
        assert(values.take(0) =~= Seq::<Datum>::empty());
        0
    } else if end_offset(values, upto - 1) <= k {
        assert forall|j: int| 0 <= j < upto implies end_offset(values, j) <= k by {
            lemma_offsets_grow(values, j, upto - 1);
        }
        upto
    } else {
        lemma_boundary(values, k, (upto - 1) as nat)
    }
}

/// Fields end in the order in which they were written.
proof fn lemma_offsets_grow(values: Seq<Datum>, i: int, j: int)
    requires
        0 <= i <= j < values.len(),
    ensures
        end_offset(values, i) <= end_offset(values, j),
    decreases j - i,
{
    if i < j {
        lemma_offsets_grow(values, i, j - 1);
        lemma_encode_split(values, j);
    }
}

/// Prefix-default monotonicity: when only the first `k` bytes of a written
/// record are decoded, every field that ends within those bytes has its
/// written value, and every other field has its fallback.
pub proof fn lemma_prefix_gives_whole_fields_then_defaults(
    fields: Seq<FieldSpec>,
    values: Seq<Datum>,
    k: nat,
)
    requires
        conforms(fields, values),
        k <= encode_fields(values).len(),
    ensures
        decode_fields(fields, encode_fields(values).take(k as int)).len() == values.len(),
        forall|j: int|
            0 <= j < values.len() ==> #[trigger] decode_fields(
                fields,
                encode_fields(values).take(k as int),
            )[j] == if end_offset(values, j) <= k {
                values[j]
            } else {
                fields[j].default
            },
{
    let n = values.len();
    let whole = encode_fields(values);
    let input = whole.take(k as int);
    let m = lemma_boundary(values, k, n);
    let read = encode_fields(values.take(m as int));
    let tail = input.skip(read.len() as int);
    lemma_encode_split(values, m as int);
    assert(input =~= read + tail);
    lemma_reads_whole_fields(fields, values, m, tail);
    if m < n {
        let cut = encoding(values[m as int]);
        assert(end_offset(values, m as int) > k);
        assert(tail =~= cut.take(k - read.len()));
        lemma_parse_truncated(values[m as int], (k - read.len()) as nat);
        assert(cursor_at(fields, input, m + 1).len() == 0);
        assert(value_at(fields, input, m) == fields[m as int].default);
        assert forall|j: int| m < j < n implies value_at(fields, input, j as nat)
            == fields[j].default by {
            lemma_exhausted(fields, input, m + 1, j as nat);
        }
    }
}

/// Along a run of a plan without custom decode functions, the cursor
/// before field `i` is the one that the model gives.
proof fn lemma_run_cursor<F, X>(
    plan: &DecodePlan<F>,
    buffer: &[u8],
    record: Seq<Datum>,
    cursors: Seq<&[u8]>,
    i: nat,
) where F: Fn(&[u8]) -> (Result<Value, X>, &[u8])
    requires
        plan.all_primitive(),
        plan.follows(buffer, record, cursors),
        i <= plan.fields@.len(),
    ensures
        cursors[i as int]@ == cursor_at(plan.specs(), buffer@, i),
    decreases i,
{
    if i > 0 {
        lemma_run_cursor(plan, buffer, record, cursors, (i - 1) as nat);
        assert(plan.fields@[i - 1].step(cursors[i - 1], record[i - 1], cursors[i - 1 + 1]));
    }
}

/// Without custom decode functions decoding is a function of the plan and
/// the input: the only record that a run can give is the model's.
pub proof fn lemma_primitive_plan_decides<F, X>(
    plan: &DecodePlan<F>,
    buffer: &[u8],
    record: Seq<Datum>,
) where F: Fn(&[u8]) -> (Result<Value, X>, &[u8])
    requires
        plan.all_primitive(),
        plan.explains(buffer, record),
    ensures
        record == decode_fields(plan.specs(), buffer@),
{
    let cursors = choose|cursors: Seq<&[u8]>| plan.follows(buffer, record, cursors);
    assert forall|i: int| 0 <= i < record.len() implies record[i] == value_at(
        plan.specs(),
        buffer@,
        i as nat,
    ) by {
        lemma_run_cursor(plan, buffer, record, cursors, i as nat);
        assert(plan.fields@[i].step(cursors[i], record[i], cursors[i + 1]));
    }
    assert(record =~= decode_fields(plan.specs(), buffer@));
}

} // verus!
