[package]
name = "grrs"
version = "0.1.0"
edition = "2021"
publish = false

[dependencies]
anyhow = "1"
clap = { version = "3.2", features = ["derive"] }
clap-verbosity-flag = "1"
env_logger = "0.9"
exitcode = "1"
indicatif = "0.17"
log = "0.4"
