[package]
name = "enpass"
version = "0.1.0"
edition = "2021"
publish = false

[dependencies]
aes-gcm = "0.10"
async-trait = "0.1"
hex = "0.4"
pbkdf2 = "0.12"
rusqlite = { version = "0.32", features = ["sqlcipher"] }
serde = { version = "1", features = ["derive"] }
serde_json = "1"
sha2 = "0.10"
shellexpand = "3"
tracing = "0.1"
