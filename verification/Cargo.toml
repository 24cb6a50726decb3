[package]
name = "slack-cli"
version = "0.1.0"
edition = "2021"
publish = false

[dependencies]
aes = "=0.8.4"
aes-gcm = "=0.10.3"
cbc = { version = "=0.1.2", features = ["alloc"] }
pbkdf2 = { version = "=0.12.2", features = ["hmac"] }
sha2 = "=0.10.9"
rand = "=0.8.8"
hex = "=0.4.3"
chrono = "=0.4.45"
url = "=2.5.8"
dirs = "=5.0.1"
unicode-width = "=0.1.14"
clap = { version = "=4.6.7", features = ["derive"] }
serde = { version = "=1.0.229", features = ["derive"] }
serde_json = { version = "=1.0.154", features = ["preserve_order"] }
reqwest = { version = "=0.12.28", default-features = false, features = ["json", "rustls-tls"] }
tokio = { version = "=1.54.1", features = ["macros", "rt-multi-thread", "sync", "time"] }
colored = "=2.2.0"
dialoguer = "=0.11.0"
indexmap = { version = "=2.14.2", features = ["serde"] }
thiserror = "=1.0.69"
