[package]
name = "json2epub"
version = "0.1.0"
edition = "2021"
publish = false

[dependencies]
chrono = "*"
epub-builder = "*"
wasm-bindgen = "*"
js-sys = "*"
web-sys = { version = "*", features = ["Blob", "BlobPropertyBag"] }
