[package]
name = "awaitgroup"
version = "0.6.0"
edition = "2021"
publish = false

[dependencies]
anyhow = "1"
futures = "0.3"
scopeguard = "1"
tokio = { version = "1", features = ["macros", "rt", "rt-multi-thread", "sync", "time"] }
