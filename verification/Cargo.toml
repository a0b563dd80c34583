[package]
name = "otp_cop"
version = "0.1.0"
edition = "2021"
publish = false

[dependencies]
rustc-serialize = "=0.3.25"
csv = "=1.4.0"
serde = { version = "=1.0.229", features = ["derive"] }
serde_json = "=1.0.151"
reqwest = { version = "=0.13.5", default-features = false, features = ["blocking"] }
getopts = "=0.2.24"
term = "=1.2.1"
xmltree = "=0.12.0"
chrono = "=0.4.45"
sha2 = "*"
hmac = "*"
