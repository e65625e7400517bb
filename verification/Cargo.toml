[package]
name = "program_scanner"
version = "0.1.0"
edition = "2021"
publish = false

[dependencies]
clap = "=4.6.7"
csv = "=1.4.0"
serde = { version = "=1.0.229", features = ["derive"] }
