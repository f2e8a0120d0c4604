[package]
name = "txoutset"
version = "0.1.0"
edition = "2021"
publish = false

[dependencies]
bitcoin = "0.32"
clap = { version = "4", features = ["derive"] }
thiserror = "1"
