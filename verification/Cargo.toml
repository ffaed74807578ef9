[package]
name = "shery"
version = "0.1.0"
edition = "2021"
publish = false

[dependencies]
actix-web = { version = "4", default-features = false, features = ["macros"] }
anyhow = "1"
clap = { version = "4", features = ["derive"] }
serde = { version = "1", features = ["derive"] }
serde_json = "1"
