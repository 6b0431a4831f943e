[package]
name = "nodeget_server"
version = "0.1.0"
edition = "2021"
publish = false

[dependencies]
chrono = "=0.4.45"
uuid = { version = "=1.29.0", features = ["v4", "serde"] }
serde = { version = "1", features = ["derive"] }
serde_json = { version = "=1.0.154", features = ["raw_value"] }
tokio = { version = "=1.54.1", features = ["sync", "rt"] }
futures-util = "0.3"
axum = "=0.8.9"
jsonrpsee = { version = "=0.26.1", features = ["server", "macros"] }
tracing = "0.1"
anyhow = "1"
async-trait = "0.1"
sea-orm = { version = "=2.0.4", default-features = false, features = ["macros", "with-json", "with-uuid", "stream"] }
sea-orm-migration = { version = "=2.0.4", default-features = false }
