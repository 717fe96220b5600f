[package]
name = "dglab"
version = "0.1.0"
edition = "2021"
publish = false

[dependencies]
anyhow = "1"
arc-swap = "1"
futures-util = "0.3"
macroquad = { version = "0.4", default-features = false }
once_cell = "1"
qrcode = { version = "0.14", default-features = false }
serde_json = "1"
tokio = { version = "1", features = ["macros", "net", "rt", "sync", "time"] }
tokio-tungstenite = "0.24"
tracing = "0.1"
