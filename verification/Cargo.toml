[package]
name = "to_core"
version = "0.1.0"
edition = "2021"
publish = false

[dependencies]
chrono = { version = "=0.4.45", features = ["serde"] }
indexmap = { version = "=1.9.3", features = ["serde"] }
nanoid = "=0.4.0"
rand = "=0.8.8"
serde = { version = "=1.0.229", features = ["derive"] }
serde_json = "=1.0.154"
sqlx = { version = "=0.8.6", default-features = false, features = ["sqlite", "runtime-tokio", "chrono", "uuid", "json", "migrate"] }
uuid = { version = "=1.29.0", features = ["v4", "serde"] }

[dev-dependencies]
regex = "=1.13.1"
