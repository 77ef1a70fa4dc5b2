[package]
name = "peas"
version = "0.1.0"
edition = "2021"
publish = false

[dependencies]
regex = "1"
slug = "0.1"
nanoid = "0.4"
chrono = { version = "0.4", features = ["serde"] }
serde = { version = "1", features = ["derive"] }
serde_json = "1"
serde_yaml = "0.9"
toml = "0.8"
clap = { version = "4", features = ["derive"] }
colored = "2"
anyhow = "1"
thiserror = "1"
directories = "5"
tempfile = "3"
tracing = "0.1"
tracing-appender = "0.2"
tracing-subscriber = { version = "0.3", features = ["env-filter", "json"] }
async-graphql = "7"
async-graphql-axum = "7"
axum = "*"
tokio = { version = "1", features = ["rt-multi-thread", "macros", "net"] }
