[package]
name = "image_search"
version = "0.4.5"
edition = "2021"
publish = false

[dependencies]
async-std = "1"
futures = "0.3"
glob = "0.3"
infer = "*"
serde_json = "1"
surf = { version = "2", default-features = false, features = ["hyper-client"] }
