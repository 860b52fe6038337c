[package]
name = "la32_decode"
version = "0.1.0"
edition = "2021"
publish = false

[dependencies]
elf = "0.7"
wasm-bindgen = "0.2"
wasm-bindgen-futures = "0.4"
