[package]
name = "yunxi"
version = "0.1.0"
edition = "2021"
publish = false

[dependencies]
atomic-write-file = "0.2"
chacha20poly1305 = "0.10"
fs2 = "0.4"
getrandom = "0.3"
reqwest = { version = "0.12", default-features = false, features = ["blocking"] }
serde = { version = "1", features = ["derive"] }
serde_json = "1"
zeroize = "1"
