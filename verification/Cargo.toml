[package]
name = "qualisys_rust_sdk"
version = "0.1.0"
edition = "2021"
publish = false

[dependencies]
roxmltree = "0.20"
thiserror = "2"
clap = { version = "4", features = ["derive", "env"] }
