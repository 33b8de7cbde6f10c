[package]
name = "openxai_indexer"
version = "0.1.0"
edition = "2021"
publish = false

[dependencies]
alloy-primitives = { version = "=1.7.3", features = ["k256"] }
alloy-signer = "=2.5.0"
alloy-signer-local = "=2.5.0"
aes-gcm = "=0.11.1"
getrandom = "=0.4.3"
subtle = "=2.6.1"
zeroize = "=1.9.0"
secrecy = "=0.10.3"
libc = "=0.2.190"
parking_lot = "=0.12.5"
serde = { version = "=1.0.229", features = ["derive"] }
serde_json = "=1.0.151"
