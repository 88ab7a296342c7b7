[package]
name = "nymshare_core"
version = "0.1.0"
edition = "2021"
publish = false

[dependencies]
tokio = { version = "1", features = ["rt-multi-thread", "macros", "time", "sync", "fs"] }
uuid = { version = "1", features = ["v4"] }
log = "0.4"
simplelog = "0.12"
