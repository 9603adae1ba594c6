[package]
name = "netspeed"
version = "0.1.0"
edition = "2021"
publish = false

[dependencies]
flate2 = "1"
reqwest = { version = "0.12", default-features = false, features = ["blocking", "rustls-tls"] }
serde_json = "1"
tar = "0.4"
