[package]
name = "guaradict"
version = "0.1.0"
edition = "2021"
publish = false

[dependencies]
tokio = { version = "1", features = ["rt-multi-thread", "net", "io-util", "sync", "time", "macros"] }
serde = { version = "1", features = ["derive"] }
serde_yaml = "0.9"
rustyline = "*"
