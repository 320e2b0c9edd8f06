[package]
name = "hdc_deploy"
version = "0.1.0"
edition = "2021"
publish = false

[dependencies]
reqwest = { version = "0.12", default-features = false, features = ["rustls-tls"] }
walkdir = "2"
zip = { version = "2", default-features = false, features = ["deflate"] }
