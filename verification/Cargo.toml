[package]
name = "tenancy_core"
version = "0.1.0"
edition = "2021"
publish = false

[dependencies]
ahash = "*"
seekstorm = "*"
serde = { version = "*", features = ["derive"] }
serde_json = "*"
tokio = { version = "*", features = ["rt-multi-thread", "macros", "sync"] }
