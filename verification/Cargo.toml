[package]
name = "files_reader"
version = "0.1.0"
edition = "2021"
publish = false

[dependencies]
futures = "0.3"
futures-util = { version = "0.3", features = ["io"] }
tokio = { version = "1", features = ["fs", "io-util", "macros", "rt-multi-thread"] }
tokio-util = { version = "0.7", features = ["compat"] }
