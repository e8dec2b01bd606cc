[package]
name = "key_value_store"
version = "0.1.0"
edition = "2021"
publish = false

[dependencies]
bytes = "=0.4.12"
futures = "=0.1.31"
tokio-io = "=0.1.13"
tokio-proto = "=0.1.1"
tokio-service = "=0.1.0"
