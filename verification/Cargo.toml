[package]
name = "wowasticker"
version = "0.2.0"
edition = "2021"
publish = false

[dependencies]
anyhow = "=1.0.104"
chrono = "=0.4.45"
jni = "0.21"
rusqlite = { version = "=0.41.1", features = ["bundled"] }
wasm-bindgen = "0.2"
