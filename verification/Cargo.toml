[package]
name = "npulama"
version = "0.1.0"
edition = "2021"
publish = false

[dependencies]
axum = { version = "0.7", default-features = false, features = ["http1", "tokio"] }
clap = { version = "4", features = ["derive"] }
dirs = "5"
egui = "0.29"
foundry-local-sdk = "1.0"
futures-util = { version = "0.3", default-features = false, features = ["std"] }
rand = "0.8"
reqwest = { version = "0.12", default-features = false, features = ["json", "stream"] }
serde = { version = "1", features = ["derive"] }
serde_json = { version = "1", features = ["raw_value"] }
tokio = { version = "1", features = ["macros", "net", "rt-multi-thread", "signal", "sync", "time"] }
tray-icon = { version = "0.19", default-features = false }
