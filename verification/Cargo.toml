[package]
name = "svg_tess"
version = "0.1.0"
edition = "2021"
publish = false

[dependencies]
bytemuck = "1"
lyon = "=1.0.19"
regex-lite = "=0.1.9"
serde = { version = "=1.0.229", features = ["derive"] }
wasm-bindgen = "=0.2.129"
serde-wasm-bindgen = "=0.6.5"
