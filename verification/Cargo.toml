[package]
name = "atomic_try_update"
version = "0.1.0"
edition = "2021"
publish = false

[dependencies]
crossbeam-utils = "=0.8.23"
tokio = { version = "=1.54.1", features = ["sync"] }

[dev-dependencies]
rand = "=0.8.8"
tokio = { version = "=1.54.1", features = ["sync", "rt", "rt-multi-thread"] }
