[package]
name = "beacon_probe"
version = "0.1.0"
edition = "2021"
publish = false

[dependencies]
url = "2"
serde_json = "1"
jsonschema = "*"
reqwest = { version = "0.12", default-features = false, features = ["blocking", "json"] }
log = "0.4"
