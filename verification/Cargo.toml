[package]
name = "cm"
version = "0.1.0"
edition = "2021"
publish = false

[dependencies]
anyhow = "=1.0.104"
walrus = "=0.27.3"
wasmtime = "=47.0.4"
