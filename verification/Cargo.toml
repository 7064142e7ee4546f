[package]
name = "query_rewrite"
version = "0.1.0"
edition = "2021"
publish = false

[dependencies]
grep-matcher = "*"
grep-regex = "*"
indexmap = { version = "*", features = ["serde"] }
lazy_static = "*"
serde = { version = "*", features = ["derive"] }
serde-aux = { version = "*", default-features = false }
serde_json = "*"
traefik_wasm_api = "*"
url = "*"
