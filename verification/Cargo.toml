[package]
name = "fedi3_core"
version = "0.1.0"
edition = "2021"
publish = false

[dependencies]
sha2 = "=0.10.9"
hex = "=0.4.3"
base64 = "=0.22.1"
urlencoding = "=2.1.3"
http = "=1.5.0"
time = { version = "=0.3.55", features = ["formatting"] }
rand = "=0.8.8"
rsa = { version = "=0.9.10", features = ["sha2"] }
aes-gcm = "=0.10.3"
hkdf = "=0.12.4"
serde = { version = "=1.0.229", features = ["derive"] }
serde_json = "=1.0.154"
anyhow = "=1.0.104"
httpdate = "1"
mime_guess = "2"
