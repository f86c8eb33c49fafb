[package]
name = "effective_encoding"
version = "0.1.0"
edition = "2021"
publish = false

[dependencies]
rand = "0.8"
serde = { version = "1", features = ["derive"] }
serde_json = "1"
serde_cbor = "0.11"
ciborium = "0.2"
rmp-serde = "1"
prost = "0.13"
bincode = "2"
rkyv = "0.8"
