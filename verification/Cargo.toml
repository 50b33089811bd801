[package]
name = "chess_engine"
version = "0.1.0"
edition = "2021"
publish = false

[dependencies]
num = "0.4"
clap = { version = "4", features = ["derive"] }
colored = "2"
log = "0.4"
simple_logger = "4"
