[package]
name = "wasmchi"
version = "0.1.0"
edition = "2021"
publish = false

[dependencies]
wasm-encoder = "*"
anyhow = "*"
thiserror = "*"
clap = { version = "*", features = ["derive"] }

[dev-dependencies]
wasmparser = "*"
wasmi = "*"
