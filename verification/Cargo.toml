[package]
name = "duckdb_server"
version = "0.1.0"
edition = "2021"
publish = false

[dependencies]
anyhow = "*"
axum = { version = "*", features = ["ws"] }
lru = { version = "=0.18.5", default-features = false }
mime = "*"
serde = { version = "*", features = ["derive"] }
serde_json = "=1.0.151"
tokio = { version = "*", features = ["full"] }
tower-http = { version = "*", features = ["cors", "compression-gzip", "trace"] }
tracing = "*"
