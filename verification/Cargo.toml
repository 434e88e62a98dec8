[package]
name = "executorch_bencher"
version = "0.1.0"
edition = "2021"
publish = false

[dependencies]
serde = { version = "1", features = ["derive"] }
serde_json = "1"
base64 = "0.22"
chrono = { version = "0.4", features = ["serde"] }
uuid = { version = "1", features = ["v7", "serde"] }
sha2 = "0.10"
axum = "0.8"
tokio = { version = "1", features = ["full"] }
tokio-util = { version = "0.7", features = ["io"] }
tokio-stream = { version = "0.1", features = ["sync"] }
futures-util = "0.3"
sqlx = { version = "0.8", default-features = false, features = ["sqlite", "runtime-tokio", "chrono", "migrate", "macros"] }
async-compression = { version = "0.4", features = ["tokio", "zstd"] }
tower-http = { version = "0.6", features = ["fs"] }
utoipa = { version = "5", features = ["chrono", "uuid"] }
utoipa-axum = "0.2"
