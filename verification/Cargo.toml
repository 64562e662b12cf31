[package]
name = "gmail_forwarder"
version = "0.1.0"
edition = "2021"
publish = false

[dependencies]
clap = { version = "*", features = ["derive"] }
imap = "*"
lettre = "*"
log = "*"
regex = "*"
retry = "*"
rustls-connector = "*"
simple_logger = "*"
