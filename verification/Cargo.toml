[package]
name = "prismattyc_mux"
version = "0.1.0"
edition = "2021"
publish = false

[dependencies]
getrandom = "0.3"
rustix = { version = "1", features = ["event", "fs", "net", "process"] }
serde = { version = "1", features = ["derive"] }
serde_json = "1"
