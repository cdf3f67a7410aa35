[package]
name = "billly"
version = "0.1.0"
edition = "2021"
publish = false

[dependencies]
sha2 = "*"
hex = "*"
base64 = "*"
ring = "*"
keyring = { version = "3", default-features = false, features = ["linux-native"] }
uuid = { version = "*", features = ["v4"] }
chrono = "*"
serde = { version = "*", features = ["derive"] }
serde_json = "*"
rusqlite = { version = "*", features = ["bundled"] }
notify = "*"
walkdir = "*"
anyhow = "*"
reqwest = { version = "*", default-features = false, features = ["blocking", "json", "rustls-tls"] }
jsonschema = { version = "*", default-features = false }
pdf-extract = "*"
