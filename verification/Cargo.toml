[package]
name = "arkavo_protocol"
version = "0.1.0"
edition = "2021"
publish = false

[dependencies]
regex = "=1.13.1"
serde = { version = "=1.0.229", features = ["derive"] }
serde_json = "=1.0.154"
sha2 = "=0.10.9"
hex = "=0.4.3"
bs58 = "=0.5.1"
lru = "=0.19.0"
governor = "=0.10.4"
chrono = "=0.4.45"
uuid = { version = "=1.29.0", features = ["v4"] }
dashmap = "=6.2.1"
crossbeam-queue = "=0.3.14"
base64 = "0.22"
urlencoding = "2"
jsonwebtoken = "9"
rand = "0.8"
