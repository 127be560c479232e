[package]
name = "tryx_postgres"
version = "0.1.0"
edition = "2021"
publish = false

[dependencies]
serde_json = "1"
tokio = { version = "1", features = ["rt-multi-thread"] }
tokio-postgres = "0.7"
deadpool-postgres = "0.14"
