use borsh_incremental::decoder::{decode, decode_field, decode_record, or_default, Record};
use borsh_incremental::plan::{DecodePlan, FieldDescriptor, Strategy};
use borsh_incremental::value::{FieldType, Value};

type Custom = fn(&[u8]) -> (Result<Value, String>, &[u8]);

fn prim(name: &str, default: Value) -> FieldDescriptor<Custom> {
    FieldDescriptor::primitive(name, default.kind())
        .with_default(default)
        .ok()
        .unwrap()
}

fn plan_of(fields: Vec<FieldDescriptor<Custom>>) -> DecodePlan<Custom> {
    let mut plan = DecodePlan::new();
    for f in fields {
        plan.push(f).unwrap();
    }
    plan
}

/// Reads one byte as a truth value; fails on empty input.
fn truthy(input: &[u8]) -> (Result<Value, String>, &[u8]) {
    match input.first() {
        Some(b) => (Ok(Value::Bool(*b != 0)), &input[1..]),
        None => (Err("nothing to read".to_string()), input),
    }
}

/// Takes two bytes and then reports a failure.
fn takes_two_then_fails(input: &[u8]) -> (Result<Value, String>, &[u8]) {
    let n = input.len().min(2);
    (Err("no".to_string()), &input[n..])
}

/// Hands back a number where a truth value is expected.
fn wrong_type(input: &[u8]) -> (Result<Value, String>, &[u8]) {
    (Ok(Value::U32(5)), input)
}

#[test]
fn or_default_keeps_a_value_of_the_right_type() {
    let default = Value::U32(9);
    assert_eq!(
        or_default(Some(Value::U32(1)), FieldType::U32, &default),
        Value::U32(1)
    );
}

#[test]
fn or_default_replaces_a_failure() {
    let default = Value::Str("d".to_string());
    assert_eq!(
        or_default(None, FieldType::Str, &default),
        Value::Str("d".to_string())
    );
}

#[test]
fn or_default_replaces_a_value_of_another_type() {
    let default = Value::U32(9);
    assert_eq!(
        or_default(Some(Value::U8(1)), FieldType::U32, &default),
        Value::U32(9)
    );
}

#[test]
fn decode_field_primitive_reads_and_advances() {
    let f = prim("n", Value::U16(3));
    let (value, rest) = decode_field(&f, &[1, 2, 3]);
    assert_eq!(value, Value::U16(0x0201));
    assert_eq!(rest, &[3u8][..]);
}

#[test]
fn decode_field_primitive_falls_back_on_short_input() {
    let f = prim("n", Value::U16(3));
    let (value, rest) = decode_field(&f, &[1]);
    assert_eq!(value, Value::U16(3));
    assert!(rest.is_empty());
}

#[test]
fn decode_field_custom_uses_the_function() {
    let f: FieldDescriptor<Custom> = FieldDescriptor::custom("x", FieldType::Bool, truthy);
    let (value, rest) = decode_field(&f, &[7, 8]);
    assert_eq!(value, Value::Bool(true));
    assert_eq!(rest, &[8u8][..]);
    let (value, rest) = decode_field(&f, &[]);
    assert_eq!(value, Value::Bool(false));
    assert!(rest.is_empty());
}

#[test]
fn custom_field_then_defaulted_field_on_one_byte() {
    let plan = plan_of(vec![
        FieldDescriptor::custom("field1", FieldType::Bool, truthy),
        prim("field2", Value::U32(1234)),
    ]);
    let decoded = decode_record(&plan, &[1]);
    assert_eq!(decoded.values, vec![Value::Bool(true), Value::U32(1234)]);
}

#[test]
fn custom_field_leaves_the_cursor_for_the_next_field() {
    let plan = plan_of(vec![
        FieldDescriptor::custom("x", FieldType::Bool, truthy),
        prim("y", Value::U16(0)),
        prim("z", Value::U8(5)),
    ]);
    let decoded = decode_record(&plan, &[0, 0x34, 0x12]);
    assert_eq!(
        decoded.values,
        vec![Value::Bool(false), Value::U16(0x1234), Value::U8(5)]
    );
}

#[test]
fn custom_failure_takes_the_default_and_keeps_what_it_consumed() {
    let custom = FieldDescriptor::custom("x", FieldType::U8, takes_two_then_fails as Custom)
        .with_default(Value::U8(42))
        .ok()
        .unwrap();
    let plan = plan_of(vec![custom, prim("y", Value::U8(0)), prim("z", Value::U8(1))]);
    let decoded = decode_record(&plan, &[10, 11, 12]);
    assert_eq!(
        decoded.values,
        vec![Value::U8(42), Value::U8(12), Value::U8(1)]
    );
}

#[test]
fn custom_value_of_another_type_takes_the_default() {
    let custom = FieldDescriptor::custom("x", FieldType::Bool, wrong_type as Custom)
        .with_default(Value::Bool(true))
        .ok()
        .unwrap();
    let plan = plan_of(vec![custom, prim("y", Value::U8(0))]);
    let decoded = decode_record(&plan, &[9]);
    assert_eq!(decoded.values, vec![Value::Bool(true), Value::U8(9)]);
}

#[test]
fn malformed_bool_is_consumed_and_defaulted() {
    let plan = plan_of(vec![prim("b", Value::Bool(true)), prim("n", Value::U8(0))]);
    let decoded = decode_record(&plan, &[2, 7]);
    assert_eq!(decoded.values, vec![Value::Bool(true), Value::U8(7)]);
}

#[test]
fn text_that_is_not_utf8_is_consumed_and_defaulted() {
    let plan = plan_of(vec![
        prim("s", Value::Str("fallback".to_string())),
        prim("n", Value::U8(0)),
    ]);
    let decoded = decode_record(&plan, &[2, 0, 0, 0, 0xff, 0xfe, 7]);
    assert_eq!(
        decoded.values,
        vec![Value::Str("fallback".to_string()), Value::U8(7)]
    );
}

#[test]
fn failed_read_is_not_rolled_back() {
    // The text announces five bytes and has two: the count is consumed with
    // them, so the number after it finds nothing, not the count's bytes.
    let plan = plan_of(vec![
        prim("s", Value::Str("fallback".to_string())),
        prim("n", Value::U32(99)),
    ]);
    let decoded = decode_record(&plan, &[5, 0, 0, 0, b'a', b'b']);
    assert_eq!(
        decoded.values,
        vec![Value::Str("fallback".to_string()), Value::U32(99)]
    );
}

#[test]
fn number_cut_short_defaults_every_later_field() {
    let plan = plan_of(vec![
        prim("a", Value::U32(10)),
        prim("b", Value::U8(20)),
        prim("c", Value::U8(30)),
    ]);
    let decoded = decode_record(&plan, &[1, 2, 3]);
    assert_eq!(
        decoded.values,
        vec![Value::U32(10), Value::U8(20), Value::U8(30)]
    );
}

#[test]
fn invalid_option_flag_is_consumed_and_defaulted() {
    let plan = plan_of(vec![prim("o", Value::OptU32(Some(1))), prim("n", Value::U8(0))]);
    let decoded = decode_record(&plan, &[9, 8]);
    assert_eq!(decoded.values, vec![Value::OptU32(Some(1)), Value::U8(8)]);
}

#[test]
fn decode_never_fails() {
    let plan = plan_of(vec![prim("a", Value::U64(1)), prim("b", Value::Str("s".to_string()))]);
    let inputs: [&[u8]; 4] = [&[], &[0xff], &[1, 2, 3, 4, 5, 6, 7, 8, 0xff, 0xff, 0xff, 0xff], &[0; 64]];
    for input in inputs {
        let result: Result<Record, String> = decode(&plan, input);
        let record = result.unwrap();
        assert_eq!(record.len(), 2);
        assert_eq!(record.get(0).map(|v| v.kind()), Some(FieldType::U64));
        assert_eq!(record.get(1).map(|v| v.kind()), Some(FieldType::Str));
    }
}

#[test]
fn decode_agrees_with_decode_record() {
    let plan = plan_of(vec![prim("a", Value::U16(1)), prim("b", Value::U16(2))]);
    let bytes = [3u8, 0, 4];
    let through: Result<Record, ()> = decode(&plan, &bytes);
    assert_eq!(through.unwrap(), decode_record(&plan, &bytes));
    assert_eq!(
        decode_record(&plan, &bytes).values,
        vec![Value::U16(3), Value::U16(2)]
    );
}

#[test]
fn record_get_and_len() {
    let record = Record {
        values: vec![Value::U8(1), Value::Bool(true)],
    };
    assert_eq!(record.len(), 2);
    assert_eq!(record.get(0), Some(&Value::U8(1)));
    assert_eq!(record.get(1), Some(&Value::Bool(true)));
    assert_eq!(record.get(2), None);
}

#[test]
fn plan_is_reused_across_decodes() {
    let plan = plan_of(vec![prim("a", Value::U8(1)), prim("b", Value::Str("d".to_string()))]);
    let first = decode_record(&plan, &[5]);
    let second = decode_record(&plan, &[6, 1, 0, 0, 0, b'z']);
    let third = decode_record(&plan, &[5]);
    assert_eq!(first.values, vec![Value::U8(5), Value::Str("d".to_string())]);
    assert_eq!(second.values, vec![Value::U8(6), Value::Str("z".to_string())]);
    assert_eq!(third, first);
    assert!(matches!(plan.fields[0].strategy, Strategy::Primitive));
}
