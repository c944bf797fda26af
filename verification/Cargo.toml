[package]
name = "tantivy_ex"
version = "0.1.0"
edition = "2021"
publish = false

[dependencies]
tantivy = "0.24"
base64 = "0.22"
chrono = "0.4"
serde = { version = "1", features = ["derive"] }
serde_json = "1"
lazy_static = "1"
rustler = "*"
