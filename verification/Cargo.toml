[package]
name = "tg_unblock"
version = "0.1.0"
edition = "2021"
publish = false

[dependencies]
aes = "0.8"
chrono = "0.4"
cipher = "0.4"
clap = { version = "4", features = ["derive"] }
ctr = "0.9"
futures-util = "0.3"
native-tls = "0.2"
tokio = { version = "1", features = ["full"] }
tokio-native-tls = "0.3"
tokio-tungstenite = "0.24"
