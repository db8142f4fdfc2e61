//! A dynamic value representation for records, variants, primitives and
//! collections, and its projection into a generic document.

pub mod dict;
pub mod equality;
pub mod float_order;
pub mod formats;
pub mod text;
pub mod value;
pub mod value_trait;

pub use dict::{Dict, DictKey};
pub use formats::into_json;
pub use value::{
    Enum, Fields, Float, HashablePrimitive, HashableValue, Integer, Primitive, Struct, Value,
};
pub use value_trait::{HashableRustyValue, RustyValue};
