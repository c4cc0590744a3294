[package]
name = "daft_backends"
version = "0.1.0"
edition = "2021"
publish = false

[dependencies]
ali-oss-rs = "*"
async-stream = "0.3"
async-trait = "0.1"
bytes = "1"
derive_more = { version = "2", features = ["display"] }
futures = "0.3"
log = "0.4"
serde = { version = "1", features = ["derive"] }
snafu = "0.8"
tokio = { version = "1", features = ["rt-multi-thread", "sync", "time"] }
url = "2"
