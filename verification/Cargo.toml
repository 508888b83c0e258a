[package]
name = "find-xrp-addr"
version = "1.0.1"
edition = "2021"
publish = false

[dependencies]
clap = { version = "4", features = ["derive", "env"] }
ctrlc = "3"
regex = "1"
ripple-keypairs = "*"
serde_json = "1"
terminal_size = "*"
