use std::path::PathBuf;

use rusty_value::{Dict, Fields, Primitive, RustyValue, Struct, Value};

// The library converts neither `()`, a path nor an `Option`: the records
// below convert such members themselves.

fn unit_value(_: ()) -> Value {
    Value::List(Vec::new())
}

fn path_value(path: PathBuf) -> Value {
    Value::Primitive(Primitive::String(path.to_string_lossy().into_owned()))
}

fn option_value<R: RustyValue>(option: Option<R>) -> Value {
    match option {
        Some(inner) => inner.into_rusty_value(),
        None => Value::List(Vec::new()),
    }
}

struct TestStructNamed {
    foo: String,
    bar: u64,
    none: (),
    path: PathBuf,
}

impl RustyValue for TestStructNamed {
    fn into_rusty_value(self) -> Value {
        let mut values = Dict::with_capacity(4);
        values.insert("foo".to_string(), self.foo.into_rusty_value());
        values.insert("bar".to_string(), self.bar.into_rusty_value());
        values.insert("none".to_string(), unit_value(self.none));
        values.insert("path".to_string(), path_value(self.path));
        Value::Struct(Struct { name: "TestStructNamed".to_string(), fields: Fields::Named(values) })
    }
}

#[test]
fn it_handles_named_fields() {
    let test_struct = TestStructNamed {
        foo: String::from("Hello World"),
        bar: 12,
        none: (),
        path: PathBuf::new(),
    };
    let value = test_struct.into_rusty_value();
    println!("{:?}", &value);

    if let Value::Struct(s) = value {
        assert_eq!(&s.name, "TestStructNamed");

        if let Fields::Named(fields) = s.fields {
            assert_eq!(fields.len(), 4);
        } else {
            panic!("Struct wasn't serialized as named struct")
        }
    } else {
        panic!("Struct wasn't serialized as struct");
    }
}

struct TestStructUnnamed(String, u64, Option<String>);

impl RustyValue for TestStructUnnamed {
    fn into_rusty_value(self) -> Value {
        let mut values = Vec::with_capacity(3);
        values.push(self.0.into_rusty_value());
        values.push(self.1.into_rusty_value());
        values.push(option_value(self.2));
        Value::Struct(Struct {
            name: "TestStructUnnamed".to_string(),
            fields: Fields::Unnamed(values),
        })
    }
}

#[test]
fn it_handles_unnamed_fields() {
    let test_struct = TestStructUnnamed(String::from("Hello World"), 12, None);
    let value = test_struct.into_rusty_value();
    println!("{:?}", &value);

    if let Value::Struct(s) = value {
        assert_eq!(&s.name, "TestStructUnnamed");

        if let Fields::Unnamed(fields) = s.fields {
            assert_eq!(fields.len(), 3);
        } else {
            panic!("Struct wasn't serialized as unnamed struct")
        }
    } else {
        panic!("Struct wasn't serialized as struct");
    }
}

struct TestStructUnit;

impl RustyValue for TestStructUnit {
    fn into_rusty_value(self) -> Value {
        Value::Struct(Struct { name: "TestStructUnit".to_string(), fields: Fields::Unit })
    }
}

#[test]
fn it_handles_unit_structs() {
    let test_struct = TestStructUnit;
    let value = test_struct.into_rusty_value();
    println!("{:?}", &value);

    if let Value::Struct(s) = value {
        assert_eq!(&s.name, "TestStructUnit");
        if let Fields::Unit = s.fields {
            assert!(true);
        } else {
            panic!("Struct wasn't serialized as unit struct")
        }
    } else {
        panic!("Struct wasn't serialized as struct");
    }
}

struct GenericStruct<T: Clone> {
    field: T,
}

impl<T: Clone + RustyValue> RustyValue for GenericStruct<T> {
    fn into_rusty_value(self) -> Value {
        let mut values = Dict::with_capacity(1);
        values.insert("field".to_string(), self.field.into_rusty_value());
        Value::Struct(Struct { name: "GenericStruct".to_string(), fields: Fields::Named(values) })
    }
}

#[test]
fn it_handles_generics() {
    let test_struct = GenericStruct::<u8> { field: 12 };
    let value = test_struct.into_rusty_value();
    println!("{:?}", &value);

    if let Value::Struct(s) = value {
        assert_eq!(&s.name, "GenericStruct");

        if let Fields::Named(fields) = s.fields {
            assert_eq!(fields.len(), 1);
        } else {
            panic!("Struct wasn't serialized as named struct")
        }
    } else {
        panic!("Struct wasn't serialized as struct");
    }
}
