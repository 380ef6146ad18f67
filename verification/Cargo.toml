[package]
name = "oscq_watchdog"
version = "0.1.0"
edition = "2021"
publish = false

[dependencies]
serde = "1"
serde_yaml = "0.9"
dirs = "5"
reqwest = { version = "0.12", default-features = false }
tokio = { version = "1", default-features = false, features = ["rt-multi-thread", "macros", "time"] }
