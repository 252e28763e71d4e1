[package]
name = "ar_bot"
version = "0.1.0"
edition = "2021"
publish = false

[dependencies]
chrono = "*"
clap = "*"
error-chain = "*"
log = "*"
pretty_env_logger = "*"
serde = { version = "*", features = ["derive"] }
toml = "*"
uuid = { version = "*", features = ["v4"] }
