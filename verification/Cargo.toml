[package]
name = "fasttime"
version = "0.1.0"
edition = "2021"
publish = false

[dependencies]
hyper = "0.13"
fastly-shared = "*"
log = "0.4"
wasmtime = "0.20"
wasmtime-wasi = "0.20"
