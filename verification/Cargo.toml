[package]
name = "es_tools"
version = "0.1.0"
edition = "2021"
publish = false

[dependencies]
elasticsearch = { version = "9.0.0-alpha.1", default-features = false, features = ["rustls-tls"] }
indexmap = { version = "2", features = ["serde"] }
regex = "1"
rmcp = { version = "0.2", features = ["server", "macros"] }
rmcp-macros = "0.2"
schemars = "0.8"
serde = { version = "1", features = ["derive"] }
serde-aux = "4"
serde_json = "1"
