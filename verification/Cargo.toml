[package]
name = "uuid-to-pokemon"
version = "0.1.0"
edition = "2021"
publish = false

[dependencies]
uuid = { version = "1", features = ["v4"] }
structopt = "0.3"
