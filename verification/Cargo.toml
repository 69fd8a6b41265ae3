[package]
name = "codex_addons"
version = "0.1.0"
edition = "2021"
publish = false

[dependencies]
chrono = "0.4"
futures = "0.3"
ratatui = { version = "0.29", default-features = false }
serde = { version = "1", features = ["derive"] }
serde_json = "1"
tempfile = "3"
tokio = { version = "1", features = ["fs", "macros", "rt", "sync", "time"] }
tokio-util = "0.7"
tracing = "0.1"
unicode-segmentation = "1"
unicode-width = "0.2"
uuid = { version = "1", features = ["v4", "v7"] }
