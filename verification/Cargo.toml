[package]
name = "leaf"
version = "0.1.0"
edition = "2021"
publish = false

[dependencies]
encoding_rs = "0.8"
url = "2"
base64 = "0.22"
serde_json = "1"
open = "5"
dirs = "5"
portable-pty = "0.8"
tokio = { version = "1", features = ["sync", "time", "rt"] }
reqwest = { version = "0.12", default-features = false, features = ["json", "rustls-tls"] }
