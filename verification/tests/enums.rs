use rusty_value::{Dict, Enum, Fields, RustyValue, Value};

#[allow(dead_code)]
enum TestEnumNamed {
    Named { foo: String },
    Named2 { foo: String, bar: u64 },
}

impl RustyValue for TestEnumNamed {
    fn into_rusty_value(self) -> Value {
        let enum_val = match self {
            TestEnumNamed::Named { foo } => {
                let mut fields = Dict::with_capacity(1);
                fields.insert("foo".to_string(), foo.into_rusty_value());
                Enum {
                    name: "TestEnumNamed".to_string(),
                    variant: "Named".to_string(),
                    fields: Fields::Named(fields),
                }
            }
            TestEnumNamed::Named2 { foo, bar } => {
                let mut fields = Dict::with_capacity(2);
                fields.insert("foo".to_string(), foo.into_rusty_value());
                fields.insert("bar".to_string(), bar.into_rusty_value());
                Enum {
                    name: "TestEnumNamed".to_string(),
                    variant: "Named2".to_string(),
                    fields: Fields::Named(fields),
                }
            }
        };
        Value::Enum(enum_val)
    }
}

#[test]
fn it_handles_enums_with_named_fields() {
    let enum_value = TestEnumNamed::Named2 { foo: String::from("hello"), bar: 12 };
    let value = enum_value.into_rusty_value();
    println!("{:?}", &value);

    if let Value::Enum(e) = value {
        assert_eq!(&e.name, "TestEnumNamed");
        assert_eq!(&e.variant, "Named2");

        if let Fields::Named(n) = e.fields {
            assert_eq!(n.len(), 2);
        } else {
            panic!("Enum variant doesn't have named fields")
        }
    } else {
        panic!("Value is not an enum")
    }
}

#[allow(dead_code)]
enum TestEnumUnnamed {
    Unnamed1(String, u8),
    Unnamed2(u8),
}

impl RustyValue for TestEnumUnnamed {
    fn into_rusty_value(self) -> Value {
        let enum_val = match self {
            TestEnumUnnamed::Unnamed1(f0, f1) => {
                let mut fields = Vec::with_capacity(2);
                fields.push(f0.into_rusty_value());
                fields.push(f1.into_rusty_value());
                Enum {
                    name: "TestEnumUnnamed".to_string(),
                    variant: "Unnamed1".to_string(),
                    fields: Fields::Unnamed(fields),
                }
            }
            TestEnumUnnamed::Unnamed2(f0) => {
                let mut fields = Vec::with_capacity(1);
                fields.push(f0.into_rusty_value());
                Enum {
                    name: "TestEnumUnnamed".to_string(),
                    variant: "Unnamed2".to_string(),
                    fields: Fields::Unnamed(fields),
                }
            }
        };
        Value::Enum(enum_val)
    }
}

#[test]
fn it_handles_enums_with_unamed_fields() {
    let enum_value = TestEnumUnnamed::Unnamed1(String::from("hello"), 12);
    let value = enum_value.into_rusty_value();
    println!("{:?}", &value);

    if let Value::Enum(e) = value {
        assert_eq!(&e.name, "TestEnumUnnamed");
        assert_eq!(&e.variant, "Unnamed1");

        if let Fields::Unnamed(n) = e.fields {
            assert_eq!(n.len(), 2);
        } else {
            panic!("Enum variant doesn't have unnamed fields")
        }
    } else {
        panic!("Value is not an enum")
    }
}

#[allow(dead_code)]
enum TestEnumUnit {
    Unit1,
    Unit2,
}

impl RustyValue for TestEnumUnit {
    fn into_rusty_value(self) -> Value {
        let enum_val = match self {
            TestEnumUnit::Unit1 => Enum {
                name: "TestEnumUnit".to_string(),
                variant: "Unit1".to_string(),
                fields: Fields::Unit,
            },
            TestEnumUnit::Unit2 => Enum {
                name: "TestEnumUnit".to_string(),
                variant: "Unit2".to_string(),
                fields: Fields::Unit,
            },
        };
        Value::Enum(enum_val)
    }
}

#[test]
fn it_handles_unit_enums() {
    let enum_val = TestEnumUnit::Unit1;
    let value = enum_val.into_rusty_value();
    println!("{:?}", &value);

    if let Value::Enum(e) = value {
        assert_eq!(&e.name, "TestEnumUnit");
        assert_eq!(&e.variant, "Unit1");

        if let Fields::Unit = e.fields {
            assert!(true)
        } else {
            panic!("Enum is variant is not a unit")
        }
    } else {
        panic!("Value is not an enum")
    }
}

enum TestGeneric<R: Clone> {
    CloneVar(R),
}

impl<R: Clone + RustyValue> RustyValue for TestGeneric<R> {
    fn into_rusty_value(self) -> Value {
        let enum_val = match self {
            TestGeneric::CloneVar(f0) => {
                let mut fields = Vec::with_capacity(1);
                fields.push(f0.into_rusty_value());
                Enum {
                    name: "TestGeneric".to_string(),
                    variant: "CloneVar".to_string(),
                    fields: Fields::Unnamed(fields),
                }
            }
        };
        Value::Enum(enum_val)
    }
}

#[test]
fn it_handles_generic_enums() {
    let enum_val = TestGeneric::CloneVar(String::from("test"));
    let value = enum_val.into_rusty_value();
    println!("{:?}", &value);

    if let Value::Enum(e) = value {
        assert_eq!(&e.name, "TestGeneric");
        assert_eq!(&e.variant, "CloneVar");

        if let Fields::Unnamed(u) = e.fields {
            assert_eq!(u.len(), 1)
        } else {
            panic!("Enum is variant is not an unnamed enum")
        }
    } else {
        panic!("Value is not an enum")
    }
}

#[allow(dead_code)]
enum TestMixed<R: Clone> {
    CloneVar(R),
    Unit,
    Named { val: R, val2: u8 },
}

impl<R: Clone + RustyValue> RustyValue for TestMixed<R> {
    fn into_rusty_value(self) -> Value {
        let enum_val = match self {
            TestMixed::CloneVar(f0) => {
                let mut fields = Vec::with_capacity(1);
                fields.push(f0.into_rusty_value());
                Enum {
                    name: "TestMixed".to_string(),
                    variant: "CloneVar".to_string(),
                    fields: Fields::Unnamed(fields),
                }
            }
            TestMixed::Unit => Enum {
                name: "TestMixed".to_string(),
                variant: "Unit".to_string(),
                fields: Fields::Unit,
            },
            TestMixed::Named { val, val2 } => {
                let mut fields = Dict::with_capacity(2);
                fields.insert("val".to_string(), val.into_rusty_value());
                fields.insert("val2".to_string(), val2.into_rusty_value());
                Enum {
                    name: "TestMixed".to_string(),
                    variant: "Named".to_string(),
                    fields: Fields::Named(fields),
                }
            }
        };
        Value::Enum(enum_val)
    }
}

#[test]
fn it_handles_mixed_enums() {
    let enum_val = TestMixed::<String>::Unit;
    let value = enum_val.into_rusty_value();
    println!("{:?}", &value);

    if let Value::Enum(e) = value {
        assert_eq!(&e.name, "TestMixed");
        assert_eq!(&e.variant, "Unit");

        if let Fields::Unit = e.fields {
            assert!(true)
        } else {
            panic!("Enum is variant is not a unit")
        }
    } else {
        panic!("Value is not an enum")
    }
}
