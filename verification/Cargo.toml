[package]
name = "sps_pipeline"
version = "0.1.0"
edition = "2021"
publish = false

[dependencies]
colored = "*"
reqwest = { version = "0.12", default-features = false }
tokio = { version = "1", features = ["macros", "rt", "sync", "time"] }
tracing = "0.1"
