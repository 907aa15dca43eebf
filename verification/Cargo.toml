[package]
name = "query_core"
version = "0.1.0"
edition = "2021"
publish = false

[dependencies]
indexmap = "*"
lexical-core = "0.8"
serde = { version = "1", features = ["derive"] }
serde_json = "1"
futures = "0.3"
async-trait = "0.1"
enumflags2 = "0.7"
lazy_static = "1"
