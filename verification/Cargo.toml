[package]
name = "mquictt"
version = "0.1.0"
edition = "2021"
publish = false

[dependencies]
bytes = "1"
mqttbytes = "*"
rumqttlog = "*"
log = "0.4"
serde = { version = "1", features = ["derive"] }
thiserror = "1"
tokio = { version = "1", features = ["full"] }
quiche = "0.12"
quic-socket = "*"
