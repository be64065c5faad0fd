[package]
name = "alert_distributor"
version = "0.1.0"
edition = "2021"
publish = false

[dependencies]
uuid = { version = "1", features = ["v4", "serde"] }
serde = { version = "1", features = ["derive"] }
serde_json = "1"
chrono = { version = "0.4", features = ["serde"] }
tokio = { version = "1", features = ["full"] }
futures = "0.3"
tracing = "0.1"
tracing-subscriber = { version = "0.3", features = ["json", "env-filter"] }
thiserror = "2"
dotenvy = "0.15"
jsonwebtoken = "9"
axum = { version = "0.7", features = ["ws"] }
rdkafka = "0.36"
sqlx = { version = "0.8", default-features = false, features = ["runtime-tokio", "postgres", "uuid", "macros", "derive"] }
aws-config = { version = "1", features = ["behavior-version-latest"] }
aws-sdk-sns = "1"
