[package]
name = "feedscan"
version = "0.1.0"
edition = "2021"
publish = false

[dependencies]
quick-xml = "=0.31.0"
regex = "=1.13.1"
feed-rs = "=2.3.1"
rand = "=0.8.8"
serde = { version = "=1.0.229", features = ["derive"] }
serde_json = "=1.0.154"
chrono = "=0.4.45"
tokio = { version = "=1.54.1", features = ["process", "rt-multi-thread", "macros", "time", "net", "io-util", "sync"] }
reqwest = { version = "=0.12.28", default-features = false, features = ["blocking"] }
rusqlite = { version = "=0.31.0", features = ["bundled"] }
