[package]
name = "parody"
version = "0.1.0"
edition = "2021"
publish = false

[dependencies]
url = "*"
percent-encoding = "*"
serde_yaml = "*"
iron = "0.6"
persistent = "0.4"
hyper = "0.10"
reqwest = { version = "0.9", default-features = false }
clap = "2"
log = "*"
env_logger = "*"
tempfile = "*"
