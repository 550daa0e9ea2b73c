[package]
name = "ennio_lib"
version = "0.1.0"
edition = "2021"
publish = false

[dependencies]
log = "*"
serde_json = "*"
serde_yaml = "*"
jsonschema = { version = "*", default-features = false }
