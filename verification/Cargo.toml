[package]
name = "cosmic_store"
version = "0.1.0"
edition = "2021"
publish = false

[dependencies]
regex = "1"
lexical-sort = "0.3"
log = "0.4"
sys-locale = "0.3"
appstream = "*"
tokio = { version = "1", features = ["rt", "rt-multi-thread"] }
env_logger = "*"
fork = "*"
