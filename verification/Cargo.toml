[package]
name = "dumpgen"
version = "0.1.0"
edition = "2021"
publish = false

[dependencies]
clang = { version = "2", features = ["runtime"] }
clap = "2"
env_logger = "*"
log = "0.4"
