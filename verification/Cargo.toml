[package]
name = "matmul"
version = "0.1.0"
edition = "2021"
publish = false

[dependencies]
clap = { version = "4", features = ["derive"] }
opencl3 = "0.9"
