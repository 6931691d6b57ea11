[package]
name = "shader_convert"
version = "0.1.0"
edition = "2021"
publish = false

[dependencies]
naga = { version = "=0.14.2", default-features = false, features = ["validate", "glsl-in", "wgsl-in", "wgsl-out", "hlsl-out", "msl-out", "glsl-out"] }
console_error_panic_hook = "=0.1.7"
wasm-bindgen = "=0.2.129"
