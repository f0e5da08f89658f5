[package]
name = "miden_account_core"
version = "0.1.0"
edition = "2021"
publish = false

[dependencies]
miden-core = { version = "0.11", default-features = false, features = ["std"] }
miden-processor = { version = "0.11", default-features = false, features = ["std"] }
