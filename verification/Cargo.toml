[package]
name = "helpcenter_pipeline"
version = "0.1.0"
edition = "2021"
publish = false

[dependencies]
rayon = "1"
reqwest = "0.12"
serde = { version = "1", features = ["derive"] }
serde_json = "1"
tokio = { version = "1", features = ["fs", "macros", "rt-multi-thread", "sync"] }
