[package]
name = "save_cloud"
version = "0.1.0"
edition = "2021"
publish = false

[dependencies]
zip = "=8.6.0"
base64 = "=0.23.1"
md5 = "=0.8.1"
percent-encoding = "=2.3.2"
qrcode-generator = "=4.1.9"
tokio = { version = "=1.53.2", features = ["rt-multi-thread", "time"] }
