[package]
name = "rustybmp"
version = "0.1.0"
edition = "2021"
publish = false

[dependencies]
sha2 = "=0.10.9"
ring = "=0.17.14"
x509-cert = "=0.2.5"
zeroize = "=1.9.1"
serde = { version = "=1.0.229", features = ["derive"] }
serde_json = "=1.0.154"
rmp-serde = "=1.3.1"
chrono = { version = "=0.4.45", default-features = false, features = ["clock", "std"] }
tokio = { version = "=1.54.1", default-features = false, features = ["io-util", "rt", "macros", "net"] }
ipnet = "2"
serde_yaml = "0.9"
uuid = { version = "1", features = ["v4"] }
