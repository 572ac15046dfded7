[package]
name = "rest_model"
version = "0.1.0"
edition = "2021"
publish = false

[dependencies]
anyhow = "*"
bb8-postgres = "*"
chrono = "*"
hex = "*"
once_cell = "*"
rand = "*"
serde = { version = "*", features = ["derive"] }
serde_json = "*"
tokio = { version = "*", features = ["rt", "rt-multi-thread", "macros"] }
tokio-postgres = { version = "*", features = ["with-serde_json-1"] }
tracing = "*"
