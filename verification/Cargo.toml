[package]
name = "stubr"
version = "0.1.0"
edition = "2021"
publish = false

[dependencies]
anyhow = "1"
async-std = "1"
futures = "0.3"
http-types = { version = "2", default-features = false }
itertools = "0.10"
jsonpath_lib = "0.3"
log = "0.4"
rand = "0.8"
rand_regex = "0.15"
regex = "1"
regex-syntax = "0.6"
reqwest = { version = "0.11", default-features = false }
serde = { version = "1", features = ["derive"] }
serde_json = "1"
wiremock = "0.5"
