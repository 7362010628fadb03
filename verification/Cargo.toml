[package]
name = "moonlander"
version = "0.1.0"
edition = "2021"
publish = false

[dependencies]
url = "=2.5.8"
mime = "=0.3.17"
encoding_rs = "=0.8.42"
rustls = { version = "=0.19.1", features = ["dangerous_configuration"] }
webpki = "=0.21.4"
anyhow = "=1.0.104"
toml = "=0.5.11"
serde = { version = "=1.0.229", features = ["derive"] }
directories-next = "=2.0.0"
