[package]
name = "p4runtime_client"
version = "0.1.0"
edition = "2021"
publish = false

[dependencies]
tokio = { version = "1", features = ["macros", "rt", "sync", "time"] }
tokio-util = "0.7"
