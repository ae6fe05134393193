[package]
name = "statusbot"
version = "0.1.0"
edition = "2021"
publish = false

[dependencies]
anyhow = "*"
dotenv = "*"
poise = "*"
reqwest = { version = "*", default-features = false, features = ["json", "rustls-tls"] }
serde = { version = "*", features = ["derive"] }
serde_json = "*"
serenity = { version = "*", default-features = false, features = ["builder", "cache", "client", "gateway", "http", "model", "rustls_backend"] }
songbird = { version = "*", default-features = false, features = ["serenity", "gateway"] }
tokio = { version = "*", features = ["macros", "rt-multi-thread", "signal", "time"] }
tracing = "*"
tracing-subscriber = { version = "*", default-features = false, features = ["fmt"] }
