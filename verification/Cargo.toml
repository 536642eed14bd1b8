[package]
name = "ic_kit"
version = "0.1.0"
edition = "2021"
publish = false

[dependencies]
tokio = { version = "=1.53.2", features = ["sync", "rt", "rt-multi-thread", "macros"] }
ic-types = "=0.3.0"
