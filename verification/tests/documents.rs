use std::collections::HashMap;

use rusty_value::formats::json_value::to_json_value;
use rusty_value::into_json::{Document, EnumRepr, IntoJson, IntoJsonOptions, Number};
use rusty_value::{
    Dict, Enum, Fields, Float, HashableRustyValue, HashableValue, Integer, Primitive, RustyValue,
    Struct, Value,
};
use serde_json::Value as Json;

fn float_json(float: Float) -> Json {
    match float {
        Float::F32(bits) => Json::from(f32::from_bits(bits) as f64),
        Float::F64(bits) => Json::from(f64::from_bits(bits)),
    }
}

fn json(document: Document) -> Json {
    to_json_value(document, &float_json)
}

fn object(members: Vec<(&str, Json)>) -> Json {
    let mut map = serde_json::Map::new();
    for (name, value) in members {
        map.insert(name.to_string(), value);
    }
    Json::Object(map)
}

fn text(s: &str) -> Json {
    Json::String(s.to_string())
}

fn untagged() -> IntoJsonOptions {
    IntoJsonOptions { enum_repr: EnumRepr::Untagged }
}

fn external() -> IntoJsonOptions {
    IntoJsonOptions { enum_repr: EnumRepr::ExternallyTagged }
}

fn adjacent(type_field: &str, value_field: &str) -> IntoJsonOptions {
    IntoJsonOptions {
        enum_repr: EnumRepr::AdjacentlyTagged {
            type_field: type_field.to_string(),
            value_field: value_field.to_string(),
        },
    }
}

fn record(name: &str, fields: Fields) -> Value {
    Value::Struct(Struct { name: name.to_string(), fields })
}

fn variant(name: &str, fields: Fields) -> Value {
    Value::Enum(Enum { name: "E".to_string(), variant: name.to_string(), fields })
}

fn float(f: f64) -> Value {
    Value::Primitive(Primitive::Float(Float::F64(f.to_bits())))
}

fn single(f: f32) -> Value {
    Value::Primitive(Primitive::Float(Float::F32(f.to_bits())))
}

#[test]
fn narrow_integers_are_numbers_equal_to_them() {
    assert_eq!(json(0usize.into_json()), Json::from(0usize));
    assert_eq!(json(usize::MAX.into_json()), Json::from(usize::MAX));
    assert_eq!(json(isize::MIN.into_json()), Json::from(isize::MIN));
    assert_eq!(json(isize::MAX.into_json()), Json::from(isize::MAX));
    assert_eq!(json(u8::MIN.into_json()), Json::from(0));
    assert_eq!(json(i8::MAX.into_json()), Json::from(127));
    assert_eq!(json((-1i8).into_json()), Json::from(-1));
    assert_eq!(json(u16::MAX.into_json()), Json::from(65535));
    assert_eq!(json(i16::MIN.into_json()), Json::from(-32768));
    assert_eq!(json(i32::MAX.into_json()), Json::from(i32::MAX));
    assert_eq!(json(u32::MAX.into_json()), Json::from(u32::MAX));
    assert_eq!(json(i64::MAX.into_json()), Json::from(i64::MAX));
    assert_eq!(json(i64::MIN.into_json()), Json::from(i64::MIN));
    assert_eq!(json(u64::MAX.into_json()), Json::from(u64::MAX));
    assert_eq!(json(Integer::I64(-5).into_json()), Json::from(-5));
    assert_eq!(json(Primitive::Integer(Integer::U8(5)).into_json()), Json::from(5));
    // A number that is not negative is the same document whatever its sign.
    assert_eq!(json(5i64.into_json()), json(5u64.into_json()));
}

#[test]
fn unsigned_wide_integers_are_two_numbers() {
    let samples = [
        0u128,
        1,
        u64::MAX as u128,
        u64::MAX as u128 + 1,
        0x1234_5678_9abc_def0_0fed_cba9_8765_4321,
        u128::MAX - 1,
        u128::MAX,
    ];
    for n in samples {
        let high = (n >> 64) as u64;
        let low = (n & 0xFFFF_FFFF_FFFF_FFFF) as u64;
        assert_eq!(json(n.into_json()), Json::Array(vec![Json::from(high), Json::from(low)]));
    }
    assert_eq!(
        json(u128::MAX.into_json()),
        Json::Array(vec![Json::from(u64::MAX), Json::from(u64::MAX)])
    );
    assert_eq!(
        json((1u128 << 64).into_json()),
        Json::Array(vec![Json::from(1), Json::from(0)])
    );
}

#[test]
fn signed_wide_integers_keep_the_sign_in_the_high_number() {
    let samples = [
        0i128,
        1,
        -1,
        i64::MAX as i128,
        i64::MIN as i128,
        u64::MAX as i128,
        u64::MAX as i128 + 1,
        -(u64::MAX as i128) - 1,
        -0x1234_5678_9abc_def0_0fed_cba9_8765_4321,
        i128::MAX,
        i128::MIN,
    ];
    for n in samples {
        let high = (n >> 64) as i64;
        let low = (n & 0xFFFF_FFFF_FFFF_FFFF) as u64;
        assert_eq!(json(n.into_json()), Json::Array(vec![Json::from(high), Json::from(low)]));
    }
    assert_eq!(
        json(i128::MIN.into_json()),
        Json::Array(vec![Json::from(i64::MIN), Json::from(0)])
    );
    assert_eq!(
        json((-1i128).into_json()),
        Json::Array(vec![Json::from(-1), Json::from(u64::MAX)])
    );
    assert_eq!(
        json(i128::MAX.into_json()),
        Json::Array(vec![Json::from(i64::MAX), Json::from(u64::MAX)])
    );
}

#[test]
fn finite_floats_are_numbers_equal_to_them() {
    for f in [0.0f64, -0.0, 1.5, -2.75, 0.1, 1e300, f64::MIN_POSITIVE, f64::MAX, f64::MIN] {
        let document = json(float(f).into_json());
        assert_eq!(document, Json::from(f));
        assert_eq!(document.as_f64(), Some(f));
    }
    for f in [0.0f32, 1.5, -2.75, 0.1, f32::MIN_POSITIVE, f32::MAX, f32::MIN] {
        let document = json(single(f).into_json());
        assert_eq!(document.as_f64(), Some(f as f64));
    }
}

#[test]
fn floats_that_are_not_finite_are_null() {
    for f in [f64::NAN, -f64::NAN, f64::INFINITY, f64::NEG_INFINITY] {
        assert!(matches!(float(f).into_json(), Document::Null));
        assert_eq!(json(float(f).into_json()), Json::Null);
    }
    for f in [f32::NAN, f32::INFINITY, f32::NEG_INFINITY] {
        assert!(matches!(single(f).into_json(), Document::Null));
    }
    assert!(matches!(
        Primitive::Float(Float::F64(f64::NAN.to_bits())).into_json(),
        Document::Null
    ));
}

#[test]
fn other_scalars_are_strings_and_booleans() {
    assert_eq!(json("text".into_json()), text("text"));
    assert_eq!(json(String::new().into_json()), text(""));
    assert_eq!(json('c'.into_json()), text("c"));
    assert_eq!(json('ß'.into_json()), text("ß"));
    assert_eq!(json(true.into_json()), Json::Bool(true));
    assert_eq!(json(false.into_json()), Json::Bool(false));
    assert_eq!(json(Primitive::Char('c').into_json_with_options(&untagged())), text("c"));
}

#[test]
fn no_members_give_the_name() {
    assert_eq!(json(record("U", Fields::Unit).into_json()), text("U"));
    assert_eq!(json(variant("V", Fields::Unit).into_json_with_options(&untagged())), text("V"));
    let unit = Struct { name: "U".to_string(), fields: Fields::Unit };
    assert_eq!(json(unit.into_json()), text("U"));
}

#[test]
fn one_positional_member_gives_its_own_document() {
    let fields = Fields::Unnamed(vec![12u8.into_rusty_value()]);
    assert_eq!(json(record("N", fields.clone()).into_json()), Json::from(12));
    assert_eq!(json(variant("V", fields).into_json_with_options(&untagged())), Json::from(12));
    let nested = Fields::Unnamed(vec![record("In", Fields::Unnamed(vec!["x".into_rusty_value()]))]);
    assert_eq!(json(record("Out", nested).into_json()), text("x"));
}

#[test]
fn other_numbers_of_positional_members_give_an_array() {
    let two = Fields::Unnamed(vec![12u8.into_rusty_value(), "x".into_rusty_value()]);
    assert_eq!(json(record("T", two).into_json()), Json::Array(vec![Json::from(12), text("x")]));
    let three = Fields::Unnamed(vec![
        1u8.into_rusty_value(),
        2u8.into_rusty_value(),
        3u8.into_rusty_value(),
    ]);
    assert_eq!(
        json(variant("V", three).into_json_with_options(&untagged())),
        Json::Array(vec![Json::from(1), Json::from(2), Json::from(3)])
    );
    assert_eq!(json(record("Z", Fields::Unnamed(vec![])).into_json()), Json::Array(vec![]));
}

#[test]
fn named_members_give_an_object() {
    let mut fields = Dict::new();
    fields.insert("foo".to_string(), "hello".into_rusty_value());
    fields.insert("bar".to_string(), 12u64.into_rusty_value());
    let value = record("R", Fields::Named(fields));
    assert_eq!(
        json(value.into_json()),
        object(vec![("foo", text("hello")), ("bar", Json::from(12))])
    );
    assert_eq!(json(record("E", Fields::Named(Dict::new())).into_json()), object(vec![]));
}

#[test]
fn an_object_keeps_the_order_of_the_members() {
    let mut fields = Dict::new();
    fields.insert("z".to_string(), 1u8.into_rusty_value());
    fields.insert("a".to_string(), 2u8.into_rusty_value());
    if let Document::Object(members) = record("R", Fields::Named(fields)).into_json() {
        let names: Vec<String> = members.into_entries().into_iter().map(|(k, _)| k).collect();
        assert_eq!(names, vec!["z".to_string(), "a".to_string()]);
    } else {
        panic!("not an object");
    }
}

#[test]
fn a_variant_with_a_member_under_the_three_taggings() {
    let bar = || variant("Bar", Fields::Unnamed(vec![String::new().into_rusty_value()]));
    assert_eq!(
        json(bar().into_json_with_options(&adjacent("type", "value"))),
        object(vec![("type", text("Bar")), ("value", text(""))])
    );
    assert_eq!(json(bar().into_json_with_options(&untagged())), text(""));
    assert_eq!(json(bar().into_json_with_options(&external())), object(vec![("Bar", text(""))]));
    assert_eq!(json(bar().into_json()), object(vec![("Bar", text(""))]));
}

#[test]
fn a_variant_without_members_under_the_three_taggings() {
    let foo = || variant("Foo", Fields::Unit);
    let plain = json(foo().into_json_with_options(&untagged()));
    let outside = json(foo().into_json_with_options(&external()));
    let beside = json(foo().into_json_with_options(&adjacent("type", "value")));
    assert_eq!(plain, text("Foo"));
    assert_eq!(outside, object(vec![("Foo", text("Foo"))]));
    assert_eq!(beside, object(vec![("type", text("Foo")), ("value", text("Foo"))]));
    assert_eq!(outside.get("Foo"), Some(&plain));
    assert_ne!(plain, outside);
    assert_ne!(plain, beside);
    assert_ne!(outside, beside);
}

#[test]
fn adjacent_tagging_with_one_field_name_keeps_the_members() {
    let bar = || variant("Bar", Fields::Unnamed(vec![7u8.into_rusty_value()]));
    assert_eq!(
        json(bar().into_json_with_options(&adjacent("same", "same"))),
        object(vec![("same", Json::from(7))])
    );
    // With both field names the variant's name it is the externally tagged document.
    assert_eq!(
        json(bar().into_json_with_options(&adjacent("Bar", "Bar"))),
        json(bar().into_json_with_options(&external()))
    );
}

#[test]
fn an_enum_as_a_struct_tags_like_a_value() {
    let e = Enum {
        name: "E".to_string(),
        variant: "V".to_string(),
        fields: Fields::Unnamed(vec![1u8.into_rusty_value(), 2u8.into_rusty_value()]),
    };
    assert_eq!(
        json(e.clone().into_json()),
        object(vec![("V", Json::Array(vec![Json::from(1), Json::from(2)]))])
    );
    assert_eq!(
        json(e.clone().into_json_with_options(&adjacent("t", "c"))),
        object(vec![("t", text("V")), ("c", Json::Array(vec![Json::from(1), Json::from(2)]))])
    );
    assert_eq!(
        json(e.into_json_with_options(&untagged())),
        Json::Array(vec![Json::from(1), Json::from(2)])
    );
}

#[test]
fn variants_inside_a_value_are_tagged_too() {
    let inner = variant("In", Fields::Unit);
    let mut fields = Dict::new();
    fields.insert("member".to_string(), inner.clone());
    let value = Value::List(vec![
        record("R", Fields::Named(fields)),
        variant("Out", Fields::Unnamed(vec![inner])),
    ]);
    assert_eq!(
        json(value.clone().into_json()),
        Json::Array(vec![
            object(vec![("member", object(vec![("In", text("In"))]))]),
            object(vec![("Out", object(vec![("In", text("In"))]))]),
        ])
    );
    assert_eq!(
        json(value.into_json_with_options(&untagged())),
        Json::Array(vec![object(vec![("member", text("In"))]), text("In")])
    );
}

#[test]
fn a_map_gives_an_object_under_the_texts_of_its_keys() {
    let mut mapping = HashMap::new();
    mapping.insert("a".to_string(), 1u8);
    assert_eq!(json(mapping.into_json()), object(vec![("a", Json::from(1))]));

    let mut dict = Dict::new();
    dict.insert(12u8.into_hashable_rusty_value(), "twelve".into_rusty_value());
    dict.insert(true.into_hashable_rusty_value(), "yes".into_rusty_value());
    dict.insert('c'.into_hashable_rusty_value(), "char".into_rusty_value());
    dict.insert(
        HashableValue::List(vec![1u8.into_hashable_rusty_value(), "b".into_hashable_rusty_value()]),
        "list".into_rusty_value(),
    );
    dict.insert(HashableValue::NoValue, "nothing".into_rusty_value());
    assert_eq!(
        json(Value::Dict(dict).into_json()),
        object(vec![
            ("12", text("twelve")),
            ("true", text("yes")),
            ("c", text("char")),
            ("1,b", text("list")),
            ("", text("nothing")),
        ])
    );
}

#[test]
fn of_two_keys_with_one_text_the_later_gives_the_value() {
    let mut dict = Dict::new();
    dict.insert(1u8.into_hashable_rusty_value(), "first".into_rusty_value());
    dict.insert("other".into_hashable_rusty_value(), "between".into_rusty_value());
    dict.insert("1".into_hashable_rusty_value(), "second".into_rusty_value());
    let document = Value::Dict(dict).into_json();
    if let Document::Object(members) = document {
        let entries = members.into_entries();
        assert_eq!(entries.len(), 2);
        assert_eq!(entries[0].0, "1");
        assert!(matches!(&entries[0].1, Document::String(s) if s == "second"));
        assert_eq!(entries[1].0, "other");
    } else {
        panic!("not an object");
    }
}

#[test]
fn a_list_gives_an_array_in_order() {
    assert_eq!(
        json(vec![3u8, 1, 2].into_json()),
        Json::Array(vec![Json::from(3), Json::from(1), Json::from(2)])
    );
    assert_eq!(json(Vec::<String>::new().into_json()), Json::Array(vec![]));
    assert_eq!(
        json(Value::List(vec![float(f64::NAN), float(1.0)]).into_json()),
        Json::Array(vec![Json::Null, Json::from(1.0)])
    );
}

#[test]
fn a_record_converts_and_projects() {
    let mut fields = Dict::new();
    fields.insert("foo".to_string(), "hello".into_rusty_value());
    fields.insert("bar".to_string(), 12u64.into_rusty_value());
    let value = record("R", Fields::Named(fields));
    let projected = json(value.into_json());
    assert_eq!(projected.to_string(), r#"{"bar":12,"foo":"hello"}"#);
}

#[test]
fn documents_are_equal_when_they_hold_the_same() {
    let build = |first: &str, second: &str| {
        let mut fields = Dict::new();
        fields.insert(first.to_string(), vec![1u8, 2].into_rusty_value());
        fields.insert(second.to_string(), variant("V", Fields::Unit));
        record("R", Fields::Named(fields)).into_json()
    };
    assert_eq!(build("a", "b"), build("a", "b"));
    assert_ne!(build("a", "b"), build("a", "c"));
    assert_ne!(build("a", "b"), Document::Null);
    assert_eq!(build("a", "b").clone(), build("a", "b"));
    assert_eq!(build("a", "b").duplicate(), build("a", "b"));

    let mut one = Dict::new();
    one.insert("x".to_string(), Document::Bool(true));
    one.insert("y".to_string(), Document::Null);
    let mut other = Dict::new();
    other.insert("y".to_string(), Document::Null);
    other.insert("x".to_string(), Document::Bool(true));
    assert_eq!(Document::Object(one), Document::Object(other));

    assert_ne!(Document::Array(vec![Document::Null]), Document::Array(vec![]));
    assert_ne!(Document::String("1".to_string()), Document::Number(Number::PosInt(1)));
    assert_ne!(Document::Bool(true), Document::Bool(false));
}

#[test]
fn numbers_are_equal_by_what_they_hold() {
    assert_eq!(Number::PosInt(5), Number::PosInt(5));
    assert_ne!(Number::PosInt(5), Number::PosInt(6));
    assert_eq!(Number::NegInt(-5), Number::NegInt(-5));
    assert_ne!(Number::NegInt(-5), Number::PosInt(5));
    assert_eq!(Number::NegInt(5), Number::PosInt(5));
    assert_eq!(Number::PosInt(5), Number::NegInt(5));
    assert_ne!(Number::PosInt(u64::MAX), Number::NegInt(-1));
    let one = Number::Float(Float::F64(1.0f64.to_bits()));
    assert_eq!(one, one);
    assert_ne!(one, Number::PosInt(1));
    let nan = Number::Float(Float::F64(f64::NAN.to_bits()));
    assert_ne!(nan, nan);
}
