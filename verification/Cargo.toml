[package]
name = "nut_monitor"
version = "0.1.0"
edition = "2021"
publish = false

[dependencies]
rusqlite = { version = "*", features = ["bundled"] }
tokio = { version = "*", features = ["net", "io-util", "time", "rt-multi-thread", "macros", "sync"] }
