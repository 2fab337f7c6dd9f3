[package]
name = "moving_stats"
version = "0.1.0"
edition = "2021"
publish = false

[dependencies]
rbtree = "=0.2.0"
tokio = { version = "=1.54.1", features = ["macros", "rt-multi-thread"] }
tracing = "=0.1.44"
kraken-async-rs = "=0.16.0"
tokio-stream = "=0.1.19"
chrono = "=0.4.45"
