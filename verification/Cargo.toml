[package]
name = "plotstream"
version = "0.1.0"
edition = "2021"
publish = false

[dependencies]
anyhow = "*"
serial2-tokio = "*"
tokio = { version = "*", features = ["macros", "rt-multi-thread", "signal"] }
tracing = "*"
tracing-indicatif = "*"
tracing-subscriber = { version = "*", features = ["env-filter"] }
