[package]
name = "lbp_core"
version = "0.1.0"
edition = "2021"
publish = false

[dependencies]
flatbuffers = "*"
image = { version = "*", default-features = false }
wasm-bindgen = "*"
