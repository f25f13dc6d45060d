[package]
name = "control_center"
version = "0.2.0"
edition = "2021"
publish = false

[dependencies]
serde = { version = "=1.0.229", features = ["derive"] }
toml = "=1.1.8"
dirs = "=7.0.0"
zbus = "=5.19.0"
tokio = { version = "=1.54.1", features = ["rt", "time", "macros", "process"] }
futures = "=0.3.34"
nmrs = "=3.5.7"
fluent-bundle = "=0.16.0"
unic-langid = "=0.9.6"
tracing = "=0.1.44"
tracing-subscriber = { version = "=0.3.23", features = ["env-filter"] }
