[package]
name = "reqwest_wasi"
version = "0.1.0"
edition = "2021"
publish = false

[dependencies]
http = "1"
url = "2"
spin-sdk = "3"
spin-executor = "3"
futures = "0.3"
futures-util = "0.3"
anyhow = "1"
