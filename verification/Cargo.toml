[package]
name = "agent_guard"
version = "0.1.0"
edition = "2021"
publish = false

[dependencies]
ed25519-dalek = "2"
getrandom = "0.2"
sha2 = "0.10"
