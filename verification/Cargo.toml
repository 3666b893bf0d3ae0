[package]
name = "invoicex"
version = "0.1.0"
edition = "2021"
publish = false

[dependencies]
rand = "=0.8.8"
time = "=0.3.55"
sha2 = "=0.10.9"
base64 = "=0.13.1"
bcrypt = "=0.13.0"
mysql = "=26.0.1"
refinery = { version = "=0.8.16", features = ["mysql"] }
actix-web = { version = "=4.18.1", default-features = false, features = ["macros"] }
actix-cors = "=0.6.5"
tracing-actix-web = "=0.7.25"
serde = { version = "=1.0.229", features = ["derive"] }
thiserror = "=1.0.69"
tokio = { version = "=1.54.1", features = ["full"] }
toml = "=0.5.11"
anyhow = "=1.0.104"
tracing = "=0.1.44"
tracing-subscriber = "=0.3.23"
