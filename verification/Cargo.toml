[package]
name = "azero_relayer"
version = "0.1.0"
edition = "2021"
publish = false

[dependencies]
ethers-core = "2"
hex = "0.4"
log = "0.4"
redis = { version = "*", features = ["tokio-comp"] }
tokio = { version = "1", features = ["macros", "rt-multi-thread", "sync", "time"] }
