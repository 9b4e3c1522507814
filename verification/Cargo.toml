[package]
name = "qr_transfer"
version = "0.1.0"
edition = "2021"
publish = false

[dependencies]
base64 = "0.21"
flate2 = "1"
md5 = "0.7"
qrcode = { version = "0.12", default-features = false, features = ["svg"] }
serde = { version = "1", features = ["derive"] }
serde_json = "1"
maud = "0.26"
