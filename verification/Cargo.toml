[package]
name = "req"
version = "0.1.0"
edition = "2021"
publish = false

[dependencies]
serde_json = "*"
uuid = { version = "*", features = ["v4"] }
chrono = "*"
clap = { version = "*", features = ["derive"] }
anyhow = "*"
dialoguer = "*"
reqwest = { version = "*", default-features = false }
tokio = { version = "*", features = ["macros", "rt-multi-thread"] }
colored_json = "*"
async-trait = "*"
