[package]
name = "codex-lomor"
version = "0.1.0"
edition = "2021"
publish = false

[dependencies]
reqwest = { version = "0.12", default-features = false }
thiserror = "2"
tokio = { version = "1", features = ["net", "time", "rt", "macros", "io-util"] }
tracing = "0.1"
which = "8"
