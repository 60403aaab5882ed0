[package]
name = "data_statistics"
version = "0.1.0"
edition = "2021"
publish = false

[dependencies]
polars = { version = "=0.55.2", default-features = false, features = ["lazy", "csv", "strings", "regex", "dtype-date", "dtype-datetime", "temporal", "pivot"] }
serde = { version = "=1.0.229", features = ["derive"] }
serde_json = "=1.0.154"
axum = "=0.8.9"
axum-server = { version = "=0.8.0", features = ["tls-rustls"] }
tokio = { version = "=1.54.1", features = ["full"] }
tower-http = { version = "=0.7.1", features = ["cors"] }
clap = { version = "=4.6.7", features = ["derive"] }
log = "=0.4.34"
log4rs = "=1.4.0"
chrono = "=0.4.45"
tracing-subscriber = "=0.3.23"
