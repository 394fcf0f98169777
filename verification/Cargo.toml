[package]
name = "signal_ext"
version = "0.1.0"
edition = "2021"
publish = false

[dependencies]
either = "1"
leptos = { version = "0.8", features = ["csr"] }
log = "0.4"
web-time = "1"
