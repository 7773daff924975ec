[package]
name = "whisper_jobs"
version = "0.1.0"
edition = "2021"
publish = false

[dependencies]
chrono = "0.4"
uuid = { version = "1", features = ["v4"] }
serde = { version = "1", features = ["derive"] }
serde_json = "1"
dirs = "5"
tokio = { version = "1", features = ["fs", "process", "io-util", "rt-multi-thread", "macros", "sync", "time"] }
