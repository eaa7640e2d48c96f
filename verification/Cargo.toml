[package]
name = "actor_kernel"
version = "0.1.0"
edition = "2021"
publish = false

[dependencies]
log = "=0.4.34"
lz-str = "=0.2.1"
qcell = "*"
reqwest = { version = "=0.13.5", features = ["blocking", "json"] }
screeps-game-api = "=0.23.5"
serde = { version = "=1.0.229", features = ["derive"] }
serde_json = "=1.0.154"
wasm-bindgen = "=0.2.129"
