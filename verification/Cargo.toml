[package]
name = "jl_proc"
version = "0.1.0"
edition = "2021"
publish = false

[dependencies]
serde_json = { version = "*", features = ["preserve_order", "arbitrary_precision"] }
clap = { version = "*", features = ["derive"] }
anyhow = "*"
