[package]
name = "backend"
version = "0.1.0"
edition = "2021"
publish = false

[dependencies]
axum = "=0.8.9"
chrono = "=0.4.45"
futures = "=0.3.34"
http = "=1.5.0"
libsql = { version = "=0.10.0", default-features = false, features = ["core", "stream"] }
serde = { version = "=1.0.229", features = ["derive"] }
tokio = { version = "=1.54.1", features = ["macros", "net", "rt-multi-thread"] }
tower-http = { version = "=0.6.11", features = ["cors"] }
