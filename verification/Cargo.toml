[package]
name = "tc"
version = "0.1.0"
edition = "2021"
publish = false

[dependencies]
tiktoken-rs = "*"
clap = { version = "*", features = ["derive"] }
rust-i18n = "*"
sys-locale = "*"
