[package]
name = "chronon-valence-identity"
version = "0.1.0"
edition = "2021"
publish = false

[dependencies]
chronon-core = "=0.1.4"
serde_json = "=1.0.154"
