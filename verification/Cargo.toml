[package]
name = "ad_engine"
version = "0.1.0"
edition = "2021"
publish = false

[dependencies]
uuid = { version = "=1.29.0", features = ["v4", "serde"] }
chrono = { version = "=0.4.45", features = ["serde"] }
regex = "=1.13.1"
serde = { version = "=1.0.229", features = ["derive"] }
serde_json = "=1.0.154"
serde_with = "=3.24.0"
anyhow = "=1.0.104"
thiserror = "1"
async-trait = "=0.1.92"
futures = "=0.3.34"
rayon = "=1.12.0"
lazy_static = "=1.5.1"
bigdecimal = "=0.4.11"
validator = { version = "=0.18.1", features = ["derive"] }
tracing = "=0.1.44"
tracing-subscriber = "=0.3.23"
prometheus = { version = "=0.13.4", default-features = false }
r2d2 = "=0.8.10"
redis = { version = "=0.25.5", default-features = false, features = ["r2d2"] }
reqwest = { version = "=0.12.28", default-features = false, features = ["json"] }
sqlx = { version = "=0.8.6", default-features = false, features = ["postgres", "runtime-tokio", "uuid", "bigdecimal", "chrono", "json", "macros"] }
