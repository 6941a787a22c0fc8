[package]
name = "binary_options_tools"
version = "0.1.0"
edition = "2021"
publish = false

[dependencies]
chrono = "0.4"
rand = "0.9"
serde_json = "1"
url = "2"
uuid = { version = "1", features = ["v4"] }
serde = { version = "1", features = ["derive"] }
tokio = { version = "1", features = ["rt", "macros", "time", "net"] }
reqwest = { version = "0.12", default-features = false, features = ["json"] }
tokio-tungstenite = { version = "0.26", features = ["connect", "__rustls-tls"] }
rustls = "0.23"
rustls-native-certs = "0.8"
rust_decimal = "1"
tracing = "0.1"
