[package]
name = "chat_wgpu"
version = "0.1.0"
edition = "2021"
publish = false

[dependencies]
serde_json = "1"
wgpu = "*"
bytemuck = "1"
futures = "0.3"
pollster = "0.4"
tokenizers = { version = "*", default-features = false, features = ["unstable_wasm"] }
wasm-bindgen = "0.2"
js-sys = "0.3"
console_error_panic_hook = "0.1"
