//! Projections of the value tree into other forms.

pub mod equal_documents;
pub mod into_json;
pub mod json_value;
pub mod theorems;
pub mod weight;
