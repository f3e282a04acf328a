[package]
name = "edge_echo"
version = "0.1.0"
edition = "2021"
publish = false

[dependencies]
serde_json = "*"
worker = "*"
futures-util = "*"
wasm-bindgen-futures = "*"
