[package]
name = "api_rate_limiting"
version = "0.1.0"
edition = "2021"
publish = false

[dependencies]
axum = "0.8"
deadpool-redis = "*"
diesel = { version = "2", default-features = false, features = ["postgres_backend", "uuid", "serde_json"] }
diesel-async = { version = "*", features = ["postgres", "bb8"] }
serde = { version = "1", features = ["derive"] }
serde_json = "1"
thiserror = "2"
tokio = { version = "1", features = ["macros", "rt-multi-thread", "net"] }
tracing = "0.1"
uuid = { version = "1", features = ["v4", "serde"] }
