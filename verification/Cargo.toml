[package]
name = "balancebeam"
version = "0.1.0"
edition = "2021"
publish = false

[dependencies]
rand = "0.7"
tokio = { version = "1", features = ["full"] }
clap = "3"
http = "0.2"
httparse = "1"
log = "0.4"
pretty_env_logger = "0.4"
crossbeam-channel = "0.5"
nix = "0.26"
rustyline = "9"
