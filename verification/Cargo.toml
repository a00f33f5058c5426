[package]
name = "hyperbeam-launcher"
version = "0.1.0"
edition = "2021"
publish = false

[dependencies]
semver = "1"
zip = { version = "0.6", default-features = false, features = ["deflate"] }
image = { version = "0.24", default-features = false, features = ["png"] }
serde = { version = "1", features = ["derive"] }
serde_yaml = "0.8"
minreq = { version = "2", features = ["json-using-serde", "https"] }
lazy_static = "1"
