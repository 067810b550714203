[package]
name = "facto"
version = "0.1.0"
edition = "2021"
publish = false

[dependencies]
base64 = "=0.22.1"
flate2 = "=1.1.10"
qrcode-generator = { version = "=6.1.2", default-features = false, features = ["qr"] }
clap = "=2.34.0"
structopt = "0.3"

[dev-dependencies]
serde_json = "=1.0.151"
