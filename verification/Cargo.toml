[package]
name = "cqr"
version = "0.1.0"
edition = "2021"
publish = false

[dependencies]
base64 = "*"
clap = { version = "*", features = ["derive"] }
clap_complete = "*"
colored = "*"
csv = "*"
dialoguer = "*"
human-panic = "*"
image = { version = "*", default-features = false, features = ["png", "jpeg"] }
indicatif = "*"
qrcode = "*"
reqwest = { version = "*", default-features = false, features = ["blocking", "rustls-tls"] }
rxing = "*"
serde = { version = "*", features = ["derive"] }
serde_json = "*"
thiserror = "*"
