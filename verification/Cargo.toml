[package]
name = "etudes"
version = "0.1.0"
edition = "2021"
publish = false

[dependencies]
rand = "0.8"
clap = { version = "4", features = ["derive"] }
anyhow = "1"
exitcode = "1"
thiserror = "1"
