[package]
name = "rmux_web"
version = "0.1.0"
edition = "2021"
publish = false

[dependencies]
aes-gcm = "=0.10.3"
hkdf = "=0.12.4"
sha2 = "=0.10.9"
sha1 = "=0.10.7"
base64 = "=0.22.1"
subtle = "=2.6.1"
getrandom = "=0.3.4"
serde = { version = "=1.0.229", features = ["derive"] }
serde_json = "=1.0.154"
chrono = { version = "0.4", default-features = false, features = ["std"] }
