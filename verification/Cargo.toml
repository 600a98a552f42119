[package]
name = "tyde"
version = "0.1.0"
edition = "2021"
publish = false

[dependencies]
anyhow = "1"
chrono = "0.4"
clap = { version = "4", features = ["derive"] }
dirs = "*"
inquire = "*"
isolang = "2"
owo-colors = "4"
rusqlite = { version = "*", features = ["bundled", "chrono"] }
serde = { version = "1", features = ["derive"] }
toml = "*"
tracing = "0.1"
tracing-appender = "0.2"
tracing-rolling-file = "*"
tracing-subscriber = { version = "0.3", features = ["env-filter"] }
unicode-normalization = "0.1"
