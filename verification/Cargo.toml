[package]
name = "sqlite_broker"
version = "0.1.1"
edition = "2021"
publish = false

[dependencies]
libc = "0.2"
rusqlite = "*"
serde = { version = "1", features = ["derive"] }
serde_json = "1"
