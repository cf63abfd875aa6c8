[package]
name = "orderbook_quoter"
version = "0.1.0"
edition = "2021"
publish = false

[dependencies]
crossbeam-channel = "=0.5.17"
rustc-hash = "=2.1.3"
serde = { version = "=1.0.229", features = ["derive"] }
serde_yaml = "=0.9.34"
serde_json = "1"
tungstenite = "*"
reqwest = { version = "*", default-features = false, features = ["blocking"] }
