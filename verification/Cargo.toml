[package]
name = "dbx"
version = "0.1.0"
edition = "2021"
publish = false

[dependencies]
encoding_rs = "=0.8.44"
csv = "=1.4.0"
serde = { version = "=1.0.229", features = ["derive"] }
serde_json = { version = "=1.0.154", features = ["preserve_order"] }
chrono = "=0.4.45"
json5 = "=0.4.1"
quick-xml = "=0.37.5"
url = "=2.5.8"
calamine = { version = "=0.38.0", features = ["dates"] }
zip = "=9.2.2"
ssfmt = "=0.1.2"
reqwest = { version = "0.12", default-features = false, features = ["blocking", "json"] }
