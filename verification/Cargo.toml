[package]
name = "alive_renderer"
version = "0.1.0"
edition = "2021"
publish = false

[dependencies]
image = { version = "*", default-features = false, features = ["png"] }
wasm-bindgen = "*"
js-sys = "*"
web-sys = { version = "*", features = ["CanvasRenderingContext2d", "ImageData"] }
lazy_static = "*"
mut_static = "*"
console_error_panic_hook = "*"
