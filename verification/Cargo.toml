[package]
name = "growatt_server"
version = "0.1.0"
edition = "2021"
publish = false

[dependencies]
anyhow = "*"
chrono = "*"
clap = { version = "*", features = ["derive"] }
futures = "*"
serde = { version = "*", features = ["derive"] }
serde_json = "*"
serde_yaml = "*"
sqlx = { version = "*", default-features = false, features = ["postgres", "runtime-tokio", "chrono"] }
tokio = { version = "*", features = ["rt-multi-thread", "net", "fs", "io-util", "macros", "signal"] }
tokio-util = "*"
tracing = "*"
tracing-appender = "*"
tracing-panic = "*"
tracing-subscriber = { version = "*", features = ["env-filter", "fmt"] }
