use rusty_value::formats::json_value::to_json_value;
use rusty_value::into_json::{Document, EnumRepr, IntoJson, IntoJsonOptions};
use rusty_value::{Dict, Enum, Fields, Float, RustyValue, Struct, Value};

fn float_json(float: Float) -> serde_json::Value {
    match float {
        Float::F32(bits) => serde_json::Value::from(f32::from_bits(bits) as f64),
        Float::F64(bits) => serde_json::Value::from(f64::from_bits(bits)),
    }
}

/// The `serde_json` value that holds what the document holds.
fn to_serde(document: Document) -> serde_json::Value {
    to_json_value(document, &float_json)
}

fn pair(high: serde_json::Value, low: serde_json::Value) -> serde_json::Value {
    serde_json::Value::Array(vec![high, low])
}

#[test]
fn it_serializes_primitives() {
    assert_eq!(to_serde(u8::MAX.into_json()), serde_json::Value::from(u8::MAX));
    assert_eq!(to_serde(i8::MIN.into_json()), serde_json::Value::from(i8::MIN));
    assert_eq!(to_serde(u16::MAX.into_json()), serde_json::Value::from(u16::MAX));
    assert_eq!(to_serde(i16::MIN.into_json()), serde_json::Value::from(i16::MIN));
    assert_eq!(to_serde(u32::MAX.into_json()), serde_json::Value::from(u32::MAX));
    assert_eq!(to_serde(i32::MIN.into_json()), serde_json::Value::from(i32::MIN));
    assert_eq!(to_serde(u64::MAX.into_json()), serde_json::Value::from(u64::MAX));
    assert_eq!(to_serde(i64::MIN.into_json()), serde_json::Value::from(i64::MIN));
    assert_eq!(
        to_serde(u128::MAX.into_json()),
        pair(serde_json::Value::from(u64::MAX), serde_json::Value::from(u64::MAX))
    );
    assert_eq!(
        to_serde(i128::MIN.into_json()),
        pair(serde_json::Value::from(i64::MIN), serde_json::Value::from(0))
    );
}

#[derive(Default)]
struct TestStruct {
    foo: String,
    bar: u8,
}

impl RustyValue for TestStruct {
    fn into_rusty_value(self) -> Value {
        let mut values = Dict::with_capacity(2);
        values.insert("foo".to_string(), self.foo.into_rusty_value());
        values.insert("bar".to_string(), self.bar.into_rusty_value());
        Value::Struct(Struct { name: "TestStruct".to_string(), fields: Fields::Named(values) })
    }
}

#[test]
fn it_serializes_structs() {
    let val = TestStruct::default();
    let value = to_serde(val.into_json());

    assert!(value.is_object());
}

#[allow(dead_code)]
enum TestEnum {
    Foo,
    Bar(String),
}

impl RustyValue for TestEnum {
    fn into_rusty_value(self) -> Value {
        let enum_val = match self {
            TestEnum::Foo => Enum {
                name: "TestEnum".to_string(),
                variant: "Foo".to_string(),
                fields: Fields::Unit,
            },
            TestEnum::Bar(f0) => {
                let mut fields = Vec::with_capacity(1);
                fields.push(f0.into_rusty_value());
                Enum {
                    name: "TestEnum".to_string(),
                    variant: "Bar".to_string(),
                    fields: Fields::Unnamed(fields),
                }
            }
        };
        Value::Enum(enum_val)
    }
}

#[test]
fn it_serializes_unit_enums_untagged() {
    let val = TestEnum::Foo;
    let value =
        to_serde(val.into_json_with_options(&IntoJsonOptions { enum_repr: EnumRepr::Untagged }));

    assert!(value.is_string());
    assert_eq!(value.as_str(), Some("Foo"))
}

#[test]
fn it_serializes_struct_enums_adjacently_tagged() {
    let val = TestEnum::Bar(String::new());
    let value = to_serde(val.into_json_with_options(&IntoJsonOptions {
        enum_repr: EnumRepr::AdjacentlyTagged {
            type_field: "type".into(),
            value_field: "value".into(),
        },
    }));
    println!("{}", value.to_string());

    assert!(value.is_object());
    assert_eq!(value.get("type").unwrap().as_str(), Some("Bar"));
    assert!(value.get("value").unwrap().is_string());
}

#[test]
fn it_serializes_struct_enums_untagged() {
    let val = TestEnum::Bar(String::new());
    let value =
        to_serde(val.into_json_with_options(&IntoJsonOptions { enum_repr: EnumRepr::Untagged }));

    assert!(value.is_string());
    assert_eq!(value.as_str(), Some(""));
}

#[test]
fn it_serializes_struct_enums_externally_tagged() {
    let val = TestEnum::Bar(String::new());
    let value = to_serde(
        val.into_json_with_options(&IntoJsonOptions { enum_repr: EnumRepr::ExternallyTagged }),
    );

    assert!(value.is_object());
    assert!(value.get("Bar").unwrap().is_string());
}
