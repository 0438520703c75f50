[package]
name = "logman"
version = "0.1.0"
edition = "2021"
publish = false

[dependencies]
alacritty_terminal = "*"
anyhow = "1"
directories = "*"
env_logger = "*"
futures = "0.3"
keyring = "*"
log = "0.4"
rust-i18n = "*"
uuid = { version = "1", features = ["v4"] }
