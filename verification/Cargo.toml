[package]
name = "event_poller"
version = "0.1.0"
edition = "2021"
publish = false

[dependencies]
solana-sdk = "=5.0.0"
solana-commitment-config = "*"
tokio = { version = "=1.54.1", features = ["rt", "rt-multi-thread"] }
