[package]
name = "dmbot"
version = "0.1.0"
edition = "2021"
publish = false

[dependencies]
itertools = "0.13"
rusqlite = "0.31"
reqwest = { version = "0.12", default-features = false }
serenity = { version = "0.12", default-features = false, features = ["builder", "cache", "client", "framework", "gateway", "http", "model", "standard_framework", "utils", "rustls_backend", "voice"] }
tokio = { version = "1", features = ["macros", "rt-multi-thread"] }
