[package]
name = "replicante_util"
version = "0.1.0"
edition = "2021"
publish = false

[dependencies]
chrono = { version = "0.4", features = ["serde"] }
crossbeam-channel = "0.5"
humthreads = "*"
rand = "0.8"
serde = { version = "1", features = ["derive"] }
serde_json = "1"
signal-hook = "0.3"
slog = "2"
slog-async = "2"
slog-json = "2"
uuid = { version = "1", features = ["serde", "v4"] }
