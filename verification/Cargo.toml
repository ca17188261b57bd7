[package]
name = "nocturne_notes"
version = "0.1.0"
edition = "2021"
publish = false

[dependencies]
aes-gcm = "0.10"
argon2 = "0.5"
bincode = "1.3"
chrono = { version = "0.4", features = ["serde"] }
zeroize = "1"
serde = { version = "1", features = ["derive"] }
anyhow = "1"
dirs = "5"
once_cell = "1"
tokio = { version = "1", features = ["rt-multi-thread"] }
async-channel = "2"
gtk4 = "0.8"
