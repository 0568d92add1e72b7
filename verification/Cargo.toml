[package]
name = "trilogy_save_codec"
version = "0.1.0"
edition = "2021"
publish = false

[dependencies]
indexmap = "=2.14.2"
unicase = "*"
anyhow = "=1.0.104"
flume = "=0.12.0"
ron = "=0.12.2"
serde = { version = "=1.0.229", features = ["derive"] }
tokio = { version = "=1.53.2", features = ["rt-multi-thread", "macros", "fs"] }
