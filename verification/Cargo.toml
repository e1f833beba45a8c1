[package]
name = "mineserv"
version = "0.1.0"
edition = "2021"
publish = false

[dependencies]
anyhow = "=1.0.104"
axum = { version = "=0.8.9", features = ["multipart", "ws"] }
chrono = "=0.4.45"
dotenvy = "=0.15.7"
futures = "=0.3.34"
jsonwebtoken = "=9.3.1"
libc = "=0.2.190"
reqwest = { version = "=0.12.28", default-features = false, features = ["json", "rustls-tls"] }
serde = { version = "=1.0.229", features = ["derive"] }
serde_json = "=1.0.151"
sqlx = { version = "=0.9.0", default-features = false, features = ["runtime-tokio", "sqlite"] }
sysinfo = "=0.39.6"
tokio = { version = "=1.53.2", features = ["full"] }
tokio-stream = "=0.1.19"
tower-http = { version = "=0.7.1", features = ["cors", "fs"] }
tracing = "=0.1.44"
tracing-subscriber = { version = "=0.3.23", features = ["env-filter"] }
urlencoding = "=2.1.3"
uuid = { version = "=1.27.0", features = ["v4"] }
zip = { version = "=8.6.0", default-features = false, features = ["deflate"] }
