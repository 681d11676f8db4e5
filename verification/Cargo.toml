[package]
name = "pna_cli"
version = "0.1.0"
edition = "2021"
publish = false

[dependencies]
anyhow = "1"
typed-path = "*"
nix = { version = "*", features = ["fs", "user"] }
regex = "1"
chrono = "0.4"
jiff = "*"
parse_datetime = "*"
clap = { version = "4", features = ["derive"] }
log = "0.4"
