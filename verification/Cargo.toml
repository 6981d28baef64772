[package]
name = "nxcmdr"
version = "0.1.0"
edition = "2021"
publish = false

[dependencies]
aes = "0.6"
block-modes = "0.7"
hmac = "0.10"
sha2 = "0.9"
pbkdf2 = { version = "0.7", default-features = false }
base64 = "0.13"
rand_core = { version = "0.6", features = ["getrandom"] }
chrono = { version = "0.4", features = ["serde"] }
anyhow = "1"
serde = { version = "1", features = ["derive"] }
serde_json = "1"
uuid = { version = "0.8", features = ["serde"] }
reqwest = { version = "0.11", default-features = false, features = ["blocking", "json", "rustls-tls"] }
rpassword = "5"
clap = { version = "3", features = ["derive"] }
dotenv-parser = "*"
