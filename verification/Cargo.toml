[package]
name = "geohub"
version = "0.1.0"
edition = "2021"
publish = false

[dependencies]
postgres = { version = "=0.19.14", features = ["with-chrono-0_4"] }
chrono = { version = "=0.4.45", features = ["serde"] }
fallible-iterator = "=0.2.0"
serde = { version = "1", features = ["derive"] }
serde_json = "1"
gpx = "=0.8.6"
geo-types = "=0.7.20"
time = "0.3"
