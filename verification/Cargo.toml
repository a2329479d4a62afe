[package]
name = "zoop_core"
version = "0.1.0"
edition = "2021"
publish = false

[dependencies]
qrcode = { version = "*", default-features = false }
rqrr = "*"
thiserror = "*"
tempfile = "*"

[dev-dependencies]
tempfile = "*"
