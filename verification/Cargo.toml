[package]
name = "ytt"
version = "0.1.0"
edition = "2021"
publish = false

[dependencies]
quick-xml = "0.31"
serde_json = "1"
serde = { version = "1", features = ["derive"] }
thiserror = "1"
clap = { version = "4", features = ["derive"] }
tokio = { version = "1", features = ["rt-multi-thread", "macros", "time"] }
reqwest = { version = "0.12", features = ["json", "cookies"] }
