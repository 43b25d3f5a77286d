[package]
name = "bytedb_query"
version = "0.1.0"
edition = "2021"
publish = false

[dependencies]
ahash = "0.8"
parking_lot = "0.12"
rayon = "1"
serde_json = "1"
thiserror = "1"
