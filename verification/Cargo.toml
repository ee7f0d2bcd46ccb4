[package]
name = "command_framework"
version = "0.1.0"
edition = "2021"
publish = false

[dependencies]
regex = "1"
num-integer = "0.1"
rand = "0.8"
log = "0.4"
env_logger = "0.9"
dotenv = "0.15"
tokio = { version = "1", features = ["macros", "rt-multi-thread", "sync"] }
serenity = { version = "0.10", features = ["unstable_discord_api"] }
