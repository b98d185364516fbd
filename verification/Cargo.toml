[package]
name = "job_control"
version = "0.1.0"
edition = "2021"
publish = false

[dependencies]
tokio = { version = "1", default-features = false, features = ["sync", "rt", "time"] }
tracing = { version = "0.1", default-features = false, features = ["std"] }
