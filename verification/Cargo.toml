[package]
name = "portal_storage"
version = "0.1.0"
edition = "2021"
publish = false

[dependencies]
discv5 = "0.1"
hex = "0.4.3"
r2d2 = "0.8"
r2d2_sqlite = "0.19"
rocksdb = "0.18"
rusqlite = { version = "0.26", features = ["bundled"] }
thiserror = "1"
tokio = { version = "1", features = ["macros", "rt", "sync"] }
tracing = "0.1"
