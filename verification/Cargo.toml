[package]
name = "fullstack_auth"
version = "0.1.0"
edition = "2021"
publish = false

[dependencies]
serde_json = "=1.0.154"
qrcode = { version = "=0.14.1", default-features = false, features = ["svg"] }
http = "=1.5.0"
wasi-auth = { version = "=0.1.0-rc.5", features = ["cedar"] }
