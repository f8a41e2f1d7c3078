[package]
name = "voice_contracts"
version = "0.1.0"
edition = "2021"
publish = false

[dependencies]
near-account-id = "=2.6.0"
near-sdk = { version = "=5.29.1", features = ["legacy", "unit-testing"] }
borsh = { version = "=1.8.1", features = ["derive"] }
serde_json = "=1.0.154"
schemars = "=0.8.22"
