[package]
name = "smart_contract_verifier"
version = "0.1.0"
edition = "2021"
publish = false

[dependencies]
anyhow = "*"
bytes = "*"
config = "*"
cron = "*"
serde = { version = "*", features = ["derive"] }
url = "*"
