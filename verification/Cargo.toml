[package]
name = "teefetch"
version = "0.1.0"
edition = "2021"
publish = false

[dependencies]
alloy = { version = "=2.5.0", default-features = false, features = ["dyn-abi"] }
k256 = { version = "=0.14.0", features = ["ecdsa"] }
serde = { version = "=1.0.229", features = ["derive"] }
serde_json = "=1.0.151"
anyhow = "=1.0.104"
reqwest = { version = "=0.13.5", default-features = false, features = ["json"] }
axum = "=0.8.9"
tokio = { version = "=1.53.2", features = ["rt-multi-thread", "net", "macros"] }
clap = { version = "=4.6.7", features = ["derive"] }
