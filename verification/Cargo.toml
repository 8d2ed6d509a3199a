[package]
name = "securechat"
version = "0.1.0"
edition = "2021"
publish = false

[dependencies]
aes-gcm = "0.10"
ansi-width = "0.1"
anyhow = "1"
base64 = "0.22"
chrono = "0.4"
crossterm = "0.28"
hkdf = "0.12"
jsonwebtoken = "9"
once_cell = "1"
openidconnect = { version = "4", default-features = false, features = ["reqwest-blocking", "rustls-tls"] }
owo-colors = "4"
rand = "0.9"
reqwest = { version = "0.12", default-features = false, features = ["blocking", "json", "rustls-tls"] }
serde = { version = "1", features = ["derive"] }
serde_json = "1"
sha2 = "0.10"
url = "2"
uuid = { version = "1", features = ["v4"] }
webbrowser = "1"
x25519-dalek = { version = "2", features = ["getrandom"] }
