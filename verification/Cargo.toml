[package]
name = "envbro"
version = "0.1.0"
edition = "2021"
publish = false

[dependencies]
aes-gcm = "0.10.3"
argon2 = "0.5.3"
zeroize = "1"
similar = "2.7.0"
anyhow = "1"
async-trait = "0.1"
clap = { version = "4", features = ["derive"] }
console = "0.15"
dialoguer = "0.11"
dirs = "5"
secrecy = "0.10"
serde = { version = "1", features = ["derive"] }
serde_json = "1"
tokio = { version = "1", features = ["full"] }
tracing = "0.1"
tracing-subscriber = { version = "0.3", features = ["env-filter"] }
