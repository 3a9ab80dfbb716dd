[package]
name = "docx2latex"
version = "0.1.0"
edition = "2021"
publish = false

[dependencies]
xml-rs = "*"
clap = { version = "*", features = ["derive"] }
log = "*"
pretty_env_logger = "*"
