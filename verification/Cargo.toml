[package]
name = "pixelbot"
version = "0.1.0"
edition = "2021"
publish = false

[dependencies]
anyhow = "1"
async-tungstenite = { version = "0.25", features = ["tokio-runtime", "tokio-native-tls"] }
dotenvy = "0.15"
futures = "0.3"
image = { version = "0.24", default-features = false, features = ["png", "jpeg"] }
log = "0.4"
pretty_env_logger = "0.5"
rand = "0.8"
serde = { version = "1", features = ["derive"] }
serde_json = "1"
tokio = { version = "1", features = ["macros", "rt-multi-thread", "time", "sync", "net"] }
tokio-native-tls = "0.3"
url = { version = "2", features = ["serde"] }
