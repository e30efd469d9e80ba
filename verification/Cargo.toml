[package]
name = "jobq"
version = "0.1.0"
edition = "2021"
publish = false

[dependencies]
sha2 = "*"
cron = "*"
chrono = "*"
serde_json = "*"
rand = "*"
governor = "*"
url = "*"
reqwest = { version = "*", default-features = false, features = ["json", "rustls-tls"] }
axum = "*"
tokio = { version = "*", features = ["macros", "rt-multi-thread", "time", "net"] }
sea-orm = { version = "*", features = ["sqlx-postgres", "runtime-tokio-rustls", "macros", "with-json", "with-chrono", "with-uuid"] }
sea-orm-migration = { version = "*", features = ["sqlx-postgres", "runtime-tokio-rustls"] }
async-trait = "*"
dotenvy = "*"
metrics = "*"
metrics-exporter-prometheus = "*"
tracing = "*"
tracing-subscriber = "*"
uuid = { version = "*", features = ["v4", "serde"] }
serde = { version = "*", features = ["derive"] }
