[package]
name = "wasm_decompile"
version = "0.1.0"
edition = "2021"
publish = false

[dependencies]
wasmparser = "*"
anyhow = "1"
clap = { version = "4", features = ["derive"] }
env_logger = "*"
