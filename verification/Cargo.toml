[package]
name = "rusty_chess"
version = "0.1.0"
edition = "2021"
publish = false

[dependencies]
regex = "1"
rand = "0.8"
rayon = "1"
lazy_static = "1"
raylib = "*"
wasm-bindgen = "0.2"
js-sys = "0.3"
