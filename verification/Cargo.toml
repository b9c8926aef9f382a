[package]
name = "nadfun_sdk"
version = "0.1.0"
edition = "2021"
publish = false

[dependencies]
alloy = { version = "2.5.0", default-features = false, features = ["std", "providers", "pubsub", "rpc-types"] }
anyhow = "1.0.104"
futures-util = "0.3.34"
