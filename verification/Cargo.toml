[package]
name = "notebook-cli"
version = "0.1.0"
edition = "2021"
publish = false

[dependencies]
structopt = "0.3"
uuid = { version = "1", features = ["v4"] }
