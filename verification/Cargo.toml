[package]
name = "blawgd"
version = "0.1.0"
edition = "2021"
publish = false

[dependencies]
solana-program = "=1.10.41"
ics23 = "=0.6.7"
prost = "=0.9.0"
tendermint-proto = "=0.23.0"
hex = "=0.4.3"
gloo = "=0.4.2"
wasm-bindgen = "=0.2.130"
web-sys = { version = "=0.3.107", features = ["console"] }
serde = { version = "=1.0.229", features = ["derive"] }
serde_json = "=1.0.154"
chrono = "=0.4.45"
anyhow = "=1.0.104"

[dev-dependencies]
borsh = "=0.9.3"
