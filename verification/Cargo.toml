[package]
name = "drift_sdk"
version = "0.1.0"
edition = "2021"
publish = false

[dependencies]
anchor-lang = "0.28"
futures-util = "0.3"
solana-sdk = "~1.16"
tokio = { version = "1", features = ["full"] }

[dev-dependencies]
hex = "0.4"
