[package]
name = "rusqlite_derive"
version = "1.0.0"
edition = "2021"
publish = false

[dependencies]
syn = { version = "=2.0.119", features = ["full", "extra-traits"] }
quote = "=1.0.47"
proc-macro2 = "=1.0.107"
attribute-derive = "0.10"
rusqlite = { version = "0.40", features = ["bundled"] }
