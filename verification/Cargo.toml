[package]
name = "pi_rust_cli"
version = "0.1.0"
edition = "2021"
publish = false

[dependencies]
regex = "1"
serde_json = "1"
shlex = "1.3"
similar = "2"
tempfile = "3"
tokio = { version = "1", features = ["rt-multi-thread"] }
walkdir = "2"
