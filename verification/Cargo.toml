[package]
name = "key_pdf"
version = "0.1.0"
edition = "2021"
publish = false

[dependencies]
flume = "0.11"
reqwest = { version = "0.12", default-features = false, features = ["blocking", "rustls-tls"] }
serde = { version = "1", features = ["derive"] }
serde_json = "1"
sha2 = "0.10"
tempfile = "3"
url = "2"
