[package]
name = "sata"
version = "0.1.0"
edition = "2021"
publish = false

[dependencies]
aes-gcm = "=0.9.4"
anyhow = "=1.0.104"
chrono = "=0.4.45"
did-key = "=0.2.1"
digest = "=0.11.3"
form_urlencoded = "=1.2.2"
getrandom = "=0.2.17"
libipld = "=0.12.0"
serde = { version = "=1.0.229", features = ["derive"] }
serde_json = "=1.0.154"
sha2 = "=0.11.1"
thiserror = "=1.0.69"
