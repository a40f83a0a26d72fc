[package]
name = "zoomies"
version = "0.1.0"
edition = "2021"
publish = false

[dependencies]
bitvec = "1"
xxhash-rust = { version = "0.8", features = ["xxh64"] }
napi = { version = "2", default-features = false, features = ["napi6"] }
napi-derive = "2"
