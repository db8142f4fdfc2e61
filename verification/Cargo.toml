[package]
name = "rusty_value"
version = "0.1.0"
edition = "2021"
publish = false

[dependencies]
serde_json = "1"
syn = "1"
quote = "1"
proc-macro2 = "1"
proc-macro-crate = "1"
