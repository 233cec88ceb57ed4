[package]
name = "zenmoney"
version = "0.1.0"
edition = "2021"
publish = false

[dependencies]
chrono = { version = "0.4", features = ["serde"] }
serde = { version = "1", features = ["derive"] }
clap = { version = "4", features = ["derive"] }
comfy-table = "7"
indicatif = "0.17"
owo-colors = "4"
