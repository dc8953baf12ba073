[package]
name = "mosaic"
version = "0.3.0"
edition = "2021"
publish = false

[dependencies]
regex = "1"
url = "2"
sha2 = "0.10"
serde = { version = "1", features = ["derive"] }
serde_json = "1"
chrono = "0.4"
uuid = { version = "1", features = ["v4"] }
ureq = { version = "2", features = ["json"] }
zip = { version = "2", default-features = false, features = ["deflate"] }
tungstenite = { version = "0.26", features = ["native-tls"] }
notify = "8"
keyring = "3"
