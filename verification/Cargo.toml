[package]
name = "freenet"
version = "0.1.0"
edition = "2021"
publish = false

[dependencies]
aes-gcm = "0.10"
rand = "0.8"
rsa = "0.9"
tokio = { version = "1", features = ["net", "sync", "time", "rt", "macros"] }
thiserror = "1"
dioxus = "0.3"
