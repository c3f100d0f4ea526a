[package]
name = "progress_cli"
version = "0.1.0"
edition = "2021"
publish = false

[dependencies]
async-trait = "*"
crossterm = "*"
parking_lot = "*"
tokio = { version = "*", features = ["sync"] }
