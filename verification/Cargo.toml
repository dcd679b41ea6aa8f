[package]
name = "bot_core"
version = "0.1.0"
edition = "2021"
publish = false

[dependencies]
serenity = { version = "0.11", features = ["voice"] }
songbird = { version = "0.3", default-features = false, features = ["serenity-rustls", "gateway"] }
tokio = { version = "1", features = ["macros", "rt-multi-thread", "sync"] }
rusqlite = "0.29"
