[package]
name = "nox_relay"
version = "0.1.0"
edition = "2021"
publish = false

[dependencies]
dashmap = "6"
argon2 = { version = "0.5", features = ["std"] }
rand_core = { version = "0.6", features = ["getrandom"] }
serde = { version = "1", features = ["derive"] }
serde_json = "1"
tokio = { version = "1", features = ["full"] }
tokio-tungstenite = "*"
futures-util = "0.3"
tracing = "0.1"
tracing-subscriber = { version = "0.3", features = ["env-filter"] }
figment = { version = "0.10", features = ["json", "env"] }
anyhow = "1"
parking_lot = "0.12"
uuid = { version = "1", features = ["v4"] }
sysinfo = "*"
glam = "*"
quinn = "0.11"
bytes = "1"
bitflags = "2"
