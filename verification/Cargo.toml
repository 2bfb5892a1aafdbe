[package]
name = "rserver"
version = "0.1.0"
edition = "2021"
publish = false

[dependencies]
urlparse = "*"
tokio = { version = "1", features = ["full"] }
futures = "0.3"
structopt = "0.3"
