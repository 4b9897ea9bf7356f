[package]
name = "dodot"
version = "0.1.0"
edition = "2021"
publish = false

[dependencies]
toml = "=1.1.8"
anyhow = "=1.0.104"
clap = "=4.6.7"
inquire = "*"
tracing = "*"
tracing-appender = "*"
tracing-subscriber = { version = "*", features = ["env-filter"] }
