[package]
name = "ergotree"
version = "0.1.0"
edition = "2021"
publish = false

[dependencies]
blake2 = "0.10"
serde = { version = "1", features = ["derive"] }
serde_json = "1"
url = "2"
bounded-integer = { version = "0.5", features = ["types"] }
