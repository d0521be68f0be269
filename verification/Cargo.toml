[package]
name = "kline_trader"
version = "0.1.0"
edition = "2021"
publish = false

[dependencies]
chrono = "0.4"
url = "2"
nalgebra = "0.33"
reqwest = { version = "0.12", features = ["json"] }
serde = { version = "1", features = ["derive"] }
serde_json = "1"
tokio = { version = "1", features = ["full"] }
tungstenite = { version = "0.20", features = ["native-tls"] }
zip = { version = "0.6", default-features = false, features = ["deflate"] }
