[package]
name = "windsurf_account_manager"
version = "0.1.0"
edition = "2021"
publish = false

[dependencies]
uuid = { version = "=1.29.0", features = ["v4", "serde"] }
chrono = { version = "=0.4.45", features = ["serde"] }
serde = { version = "=1.0.229", features = ["derive"] }
serde_json = "=1.0.154"
tokio = { version = "=1.54.1", features = ["rt-multi-thread", "sync", "macros", "net"] }
axum = "=0.7.9"
axum-extra = { version = "=0.9.6", features = ["query"] }
tower-http = { version = "=0.5.2", features = ["cors"] }
tauri = { version = "=2.12.5", default-features = false }
