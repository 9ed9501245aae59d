[package]
name = "derive_partial_eq_extras"
version = "0.2.0"
edition = "2021"
publish = false

[dependencies]
syn-helpers = { version = "=0.5.0", features = ["syn-extra-traits"] }
