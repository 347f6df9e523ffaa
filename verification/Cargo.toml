[package]
name = "blockscout_services"
version = "0.1.0"
edition = "2021"
publish = false

[dependencies]
anyhow = "=1.0.104"
async-stream = "=0.3.6"
blockscout-service-launcher = "=0.16.2"
chrono = { version = "=0.4.45", default-features = false, features = ["now"] }
futures = "=0.3.34"
reqwest = { version = "=0.11.27", default-features = false, features = ["json", "rustls-tls"] }
sea-orm = { version = "=1.1.20", default-features = false, features = ["macros", "sqlx-postgres", "runtime-tokio"] }
serde = { version = "=1.0.229", features = ["derive"] }
serde_json = "=1.0.154"
serde_with = { version = "=3.24.0", default-features = false, features = ["macros", "std"] }
tokio = { version = "=1.54.1", features = ["macros", "rt-multi-thread", "time"] }
tracing = "=0.1.44"
url = { version = "=2.5.8", features = ["serde"] }
