[package]
name = "ws_tunnel"
version = "0.1.0"
edition = "2021"
publish = false

[dependencies]
base64 = "=0.13.1"
bytes = "=1.12.1"
futures-util = "=0.3.34"
hex = "=0.4.3"
pin-project = "=1.1.13"
tokio = { version = "=1.54.1", default-features = false, features = ["io-util"] }
wasm-bindgen = "=0.2.129"
wasm-bindgen-futures = "=0.4.79"
worker = "=0.6.7"
