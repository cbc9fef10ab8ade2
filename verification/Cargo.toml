[package]
name = "mmbot"
version = "0.1.0"
edition = "2021"
publish = false

[dependencies]
anyhow = "*"
axum = "*"
chrono = "*"
clap = { version = "*", features = ["derive"] }
csv = "*"
futures-util = "*"
redis = { version = "*", features = ["tokio-comp"] }
reqwest = { version = "*", default-features = false, features = ["json", "rustls-tls"] }
serde = { version = "*", features = ["derive"] }
serde_json = "*"
sqlx = { version = "*", default-features = false, features = ["runtime-tokio-rustls", "postgres", "uuid", "chrono", "json", "macros"] }
tokio = { version = "*", features = ["full"] }
tokio-tungstenite = { version = "*", features = ["rustls-tls-webpki-roots"] }
tower-http = { version = "*", features = ["cors"] }
tracing = "*"
tracing-subscriber = { version = "*", features = ["env-filter"] }
uuid = { version = "*", features = ["v4"] }
