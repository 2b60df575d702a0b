[package]
name = "radio_remote"
version = "0.1.0"
edition = "2021"
publish = false

[dependencies]
uuid = { version = "*", features = ["v4"] }
qrcode = "*"
image = { version = "*", default-features = false, features = ["png"] }
base64 = "*"
local-ip-address = "*"
rand = "*"
axum = { version = "*", features = ["ws"] }
tokio = { version = "*", features = ["full"] }
futures-util = "*"
serde = { version = "*", features = ["derive"] }
serde_json = "*"
