[package]
name = "pay2email"
version = "0.1.0"
edition = "2021"
publish = false

[dependencies]
age = "=0.9.3"
base64 = "=0.13.1"
bech32 = "=0.9.1"
bitcoin_hashes = "=0.12.0"
chrono = "=0.4.45"
lettre = { version = "=0.10.4", default-features = false, features = ["smtp-transport", "builder"] }
lightning-invoice = "=0.21.0"
qr_code = { version = "=1.1.0", features = ["bmp"] }
serde = { version = "=1.0.229", features = ["derive"] }
serde_json = "=1.0.151"
