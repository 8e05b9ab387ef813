[package]
name = "ego_proc"
version = "0.1.0"
edition = "2021"
publish = false

[dependencies]
anyhow = "1"
async-trait = "0.1"
log = "0.4"
tokio = { version = "1", features = ["sync", "macros", "rt", "rt-multi-thread", "time"] }
uuid = { version = "1", features = ["v4"] }
