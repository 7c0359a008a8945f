[package]
name = "mqtt_ac"
version = "0.1.0"
edition = "2021"
publish = false

[dependencies]
serde = { version = "1", features = ["derive"] }
serde_json = "1"
tokio = { version = "1", features = ["full"] }
tokio-util = "0.7"
async-channel = "2"
rumqttc = { version = "*", default-features = false }
thiserror = "1"
log = "0.4"
rustop = "*"
error-stack = "*"
tracing-init = "*"
