[package]
name = "dmp_rating"
version = "0.1.0"
edition = "2021"
publish = false

[dependencies]
mongodb = "2"
tokio = { version = "1", features = ["macros", "rt-multi-thread"] }
futures-util = "0.3"
serde = { version = "1", features = ["derive"] }
serde_json = "1"
