[package]
name = "sq"
version = "0.1.0"
edition = "2021"
publish = false

[dependencies]
ansi_term = "0.12"
chrono = "0.4"
clap = "2"
prettytable-rs = "0.10"
rand = "0.8"
serde = { version = "1", features = ["derive"] }
serde_json = "1"
