[package]
name = "openmls_group"
version = "0.1.0"
edition = "2021"
publish = false

[dependencies]
futures = "0.3"
openmls = { version = "0.6", features = ["test-utils"] }
openmls_basic_credential = "0.3"
openmls_rust_crypto = "0.3"
openmls_traits = "0.3"
rand = "0.8"
tokio = { version = "1", features = ["full"] }
tokio-util = { version = "0.7", features = ["codec"] }
uuid = { version = "1", features = ["v4"] }
