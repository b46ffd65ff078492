[package]
name = "feature_status"
version = "0.1.0"
edition = "2021"
publish = false

[dependencies]
clap = { version = "=4.6.7", features = ["derive"] }
reqwest = { version = "=0.12.28", default-features = false, features = ["default-tls"] }
serde_json = "=1.0.154"
solana-sdk = { version = "=2.3.1", default-features = false }
tokio = { version = "=1.54.1", features = ["macros", "process", "rt-multi-thread"] }

[dev-dependencies]
regex = "1"
