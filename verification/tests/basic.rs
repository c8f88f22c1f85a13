use borsh_incremental::decoder::{decode, Record};
use borsh_incremental::plan::{DecodePlan, FieldDescriptor};
use borsh_incremental::value::{FieldType, Value};

type Custom = fn(&[u8]) -> (Result<Value, std::io::Error>, &[u8]);

fn plain(name: &str, value_type: FieldType) -> FieldDescriptor<Custom> {
    FieldDescriptor::primitive(name, value_type)
}

fn defaulted(name: &str, default: Value) -> FieldDescriptor<Custom> {
    FieldDescriptor::primitive(name, default.kind())
        .with_default(default)
        .ok()
        .unwrap()
}

fn custom(name: &str, value_type: FieldType, f: Custom) -> FieldDescriptor<Custom> {
    FieldDescriptor::custom(name, value_type, f)
}

fn plan_of(fields: Vec<FieldDescriptor<Custom>>) -> DecodePlan<Custom> {
    let mut plan = DecodePlan::new();
    for field in fields {
        plan.push(field).unwrap();
    }
    plan
}

fn try_from(plan: &DecodePlan<Custom>, data: &[u8]) -> Result<Record, std::io::Error> {
    decode(plan, data)
}

fn simple() -> DecodePlan<Custom> {
    plan_of(vec![
        defaulted("a", Value::U32(42)),
        defaulted("b", Value::U32(7)),
    ])
}

fn example_v2() -> DecodePlan<Custom> {
    plan_of(vec![
        defaulted("name", Value::Str("Unnamed".to_string())),
        plain("count", FieldType::U32),
        defaulted("status", Value::Str("active".to_string())),
    ])
}

fn read_bool(data: &[u8]) -> (Result<Value, std::io::Error>, &[u8]) {
    if data.is_empty() {
        return (Ok(Value::Bool(false)), data);
    }
    let b = data[0] != 0;
    (Ok(Value::Bool(b)), &data[1..]) // advance slice
}

#[test]
fn test_incremental_deser() {
    let data = (1u32, 2u32);
    let bytes = borsh::to_vec(&data).unwrap();
    let decoded = try_from(&simple(), &bytes[..]).unwrap();
    assert_eq!(
        decoded,
        Record {
            values: vec![Value::U32(1), Value::U32(2)]
        }
    );
}

#[test]
fn test_truncated_input_defaults_used() {
    let plan = plan_of(vec![
        defaulted("a", Value::U32(10)),
        defaulted("b", Value::U32(20)),
        defaulted("c", Value::U32(30)),
    ]);

    let data = (1u32, 2u32, 3u32);
    let bytes = borsh::to_vec(&data).unwrap();

    // Truncate halfway through serialized data
    let truncated = &bytes[..4]; // only enough for `a`
    let decoded = try_from(&plan, truncated).unwrap();
    assert_eq!(
        decoded,
        Record {
            values: vec![Value::U32(1), Value::U32(20), Value::U32(30)]
        }
    );
}

#[test]
fn test_custom_deser_with() {
    let plan = plan_of(vec![
        custom("x", FieldType::Bool, read_bool),
        defaulted("y", Value::U8(99)),
    ]);

    let buf = [1u8]; // only one byte
    let decoded = try_from(&plan, &buf[..]).unwrap();
    assert_eq!(
        decoded,
        Record {
            values: vec![Value::Bool(true), Value::U8(99)]
        }
    );
}

#[test]
fn test_empty_input_all_defaults() {
    let plan = plan_of(vec![
        defaulted("s", Value::Str("hi".to_string())),
        defaulted("n", Value::U32(123)),
    ]);

    let decoded = try_from(&plan, &[][..]).unwrap();
    assert_eq!(
        decoded,
        Record {
            values: vec![Value::Str("hi".into()), Value::U32(123)]
        }
    );
}

#[test]
fn test_plain_fields_no_attrs() {
    let plan = plan_of(vec![plain("a", FieldType::U8), plain("b", FieldType::U8)]);

    let data = (5u8, 6u8);
    let bytes = borsh::to_vec(&data).unwrap();
    let decoded = try_from(&plan, &bytes[..1]).unwrap(); // only `a` present
    assert_eq!(
        decoded,
        Record {
            values: vec![Value::U8(5), Value::U8(0)] // b defaulted
        }
    );
}

#[test]
fn test_backward_compat_v1_to_v2() {
    let old: (String, u32) = ("Alice".into(), 5);
    let old_bytes = borsh::to_vec(&old).unwrap();

    let v2 = try_from(&example_v2(), &old_bytes[..]).unwrap();
    assert_eq!(
        v2,
        Record {
            values: vec![
                Value::Str("Alice".into()),
                Value::U32(5),
                Value::Str("active".into())
            ]
        }
    );
}

#[test]
fn test_truncated_input_v2_defaults() {
    let old: (String, u32) = ("Alice".into(), 5);
    let old_bytes = borsh::to_vec(&old).unwrap();

    // Truncate aggressively to force defaults for name, count, and status.
    let truncated = &old_bytes[..4];
    let v2 = try_from(&example_v2(), truncated).unwrap();
    assert_eq!(
        v2,
        Record {
            values: vec![
                Value::Str("Unnamed".into()),
                Value::U32(0),
                Value::Str("active".into())
            ]
        }
    );
}

#[test]
fn test_default_error_type_is_io_error() {
    let plan = plan_of(vec![defaulted("x", Value::U8(1))]);

    let e: Record = decode::<std::io::Error, _, _>(&plan, &[][..]).unwrap();
    assert_eq!(e.get(0), Some(&Value::U8(1)));
}

#[test]
fn test_custom_deser_with_consumes_then_defaults() {
    fn read_one(data: &[u8]) -> (Result<Value, std::io::Error>, &[u8]) {
        let v = data.first().copied().unwrap_or(0);
        if !data.is_empty() {
            return (Ok(Value::U8(v)), &data[1..]);
        }
        (Ok(Value::U8(v)), data)
    }

    let plan = plan_of(vec![
        custom("head", FieldType::U8, read_one),
        defaulted("tail", Value::U8(77)),
    ]);

    let buf = [9u8]; // only enough for head
    let c = try_from(&plan, &buf[..]).unwrap();
    assert_eq!(
        c,
        Record {
            values: vec![Value::U8(9), Value::U8(77)]
        }
    );
}

#[test]
fn test_trailing_bytes_ignored() {
    let plan = plan_of(vec![defaulted("x", Value::U8(1))]);

    let bytes = [42u8, 99, 100, 101]; // 42 is `x`, rest are extra
    let z = try_from(&plan, &bytes[..]).unwrap();
    assert_eq!(
        z,
        Record {
            values: vec![Value::U8(42)]
        }
    );
}

#[test]
fn test_option_field_defaults_to_none() {
    let plan = plan_of(vec![plain("v", FieldType::OptU32)]); // no declared default

    let o = try_from(&plan, &[][..]).unwrap();
    assert_eq!(
        o,
        Record {
            values: vec![Value::OptU32(None)]
        }
    );
}
