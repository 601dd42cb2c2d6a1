[package]
name = "jobd"
version = "0.1.0"
edition = "2021"
publish = false

[dependencies]
actix-web = { version = "=4.15.0", default-features = false, features = ["macros"] }
anyhow = "1"
bollard = { version = "=0.21.1", features = ["ssl"] }
clap = { version = "4", features = ["derive", "env"] }
futures = "0.3"
once_cell = "1"
prometheus-client = "=0.25.1"
serde = { version = "1", features = ["derive"] }
serde_json = "1"
tokio = { version = "1", features = ["macros", "rt-multi-thread", "time", "sync"] }
tracing = "0.1"
tracing-subscriber = "0.3"
