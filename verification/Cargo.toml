[package]
name = "baleine"
version = "0.1.0"
edition = "2021"
publish = false

[dependencies]
clap = { version = "3", features = ["derive", "cargo"] }
dotenv = "0.15"
futures = "0.3"
json = "0.12"
openssh = "*"
reqwest = { version = "*", default-features = false }
tokio = { version = "1", features = ["macros", "rt-multi-thread"] }
tracing = "0.1"
tracing-subscriber = "0.3"
