[package]
name = "polywrap_client_hmny"
version = "0.1.0"
edition = "2021"
publish = false

[dependencies]
wasmer = "4"
tokio = { version = "1", features = ["rt-multi-thread", "macros", "sync", "fs"] }
serde = { version = "1", features = ["derive"] }
polywrap_msgpack_serde = "*"
polywrap_uri = "*"
