[package]
name = "hpyd"
version = "0.1.0"
edition = "2021"
publish = false

[dependencies]
chrono = { version = "=0.4.45", default-features = false, features = ["clock", "std", "serde"] }
uuid = { version = "=1.29.1", features = ["v4", "serde"] }
anyhow = "=1.0.104"
async-trait = "=0.1.92"
aws-config = "=1.13.0"
aws-credential-types = "=1.3.1"
aws-sdk-s3 = "=1.157.0"
axum = "=0.8.9"
dotenvy = "=0.15.7"
serde = { version = "=1.0.229", features = ["derive"] }
serde_json = "=1.0.154"
thiserror = "=2.0.21"
tokio = { version = "=1.54.1", features = ["full"] }
tower-http = { version = "=0.6.11", features = ["cors", "trace"] }
tracing = "=0.1.44"
tracing-subscriber = { version = "=0.3.23", features = ["env-filter", "json"] }
url = "=2.5.8"
utoipa = { version = "=5.5.0", features = ["axum_extras", "chrono", "uuid"] }
utoipa-swagger-ui = { version = "=9.0.2", features = ["axum", "vendored"] }
which = "=7.0.3"
