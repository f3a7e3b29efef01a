[package]
name = "interfere"
version = "0.1.0"
edition = "2021"
publish = false

[dependencies]
serde_json = "*"
markup_fmt = "*"
urlencoding = "*"
rusqlite = { version = "*", features = ["bundled"] }
chrono = "*"
reqwest = { version = "*", default-features = false, features = ["blocking"] }
