[package]
name = "unwalled_node"
version = "0.1.0"
edition = "2021"
publish = false

[dependencies]
ed25519-dalek = "1"
hex = "0.4"
rand = "0.7"
uuid = "1"
