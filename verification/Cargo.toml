[package]
name = "onwemu"
version = "0.1.0"
edition = "2021"
publish = false

[dependencies]
anyhow = "1"
clap = { version = "4", features = ["derive"] }
minifb = "*"
wasm-bindgen = "0.2"
console_error_panic_hook = "0.1"
