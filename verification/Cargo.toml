[package]
name = "tx_listener"
version = "0.1.0"
edition = "2021"
publish = false

[dependencies]
clap = "4"
futures = "0.3"
tokio = { version = "1", features = ["macros", "rt-multi-thread", "time"] }
web3 = { version = "0.19", default-features = false, features = ["ws-tokio"] }
