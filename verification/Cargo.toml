[package]
name = "gmrs"
version = "0.1.0"
edition = "2021"
publish = false

[dependencies]
crossbeam = "0.8"
lazy_static = "1.4"
thiserror = "1"
syn = { version = "1", features = ["full"] }
quote = "1"
proc-macro2 = "1"
