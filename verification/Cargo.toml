[package]
name = "teaclave_lifecycle"
version = "0.1.0"
edition = "2021"
publish = false

[dependencies]
anyhow = "1"
base64 = "0.13"
chrono = "0.4"
hex = "0.4"
log = "0.4"
once_cell = "1"
percent-encoding = "2"
rand = "0.8"
serde = { version = "1", features = ["derive"] }
serde_json = "1"
tantivy = { version = "0.19", default-features = false, features = ["lz4-compression"] }
thiserror = "1"
url = "2"
uuid = { version = "1", features = ["v4"] }
