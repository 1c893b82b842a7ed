[package]
name = "ape_dts"
version = "0.1.0"
edition = "2021"
publish = false

[dependencies]
concurrent-queue = "2"
serde = { version = "1", features = ["derive"] }
serde_json = "1"
tokio = { version = "1", features = ["rt", "time", "sync", "macros"] }
log = "0.4"
async-trait = "0.1"
sqlx = { version = "0.7", default-features = false, features = ["runtime-tokio-rustls", "mysql", "postgres"] }
rdkafka = "0.36"
