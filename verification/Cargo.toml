[package]
name = "modeldl"
version = "0.1.0"
edition = "2021"
publish = false

[dependencies]
rand = "0.8"
reqwest = { version = "*", default-features = false, features = ["stream"] }
tokio = { version = "*", features = ["rt-multi-thread", "macros", "time", "sync", "fs", "io-util"] }
futures = "*"
futures-util = "*"
indicatif = "*"
console = "*"
chrono = "*"
fs_extra = "*"
zip-extract = "*"
async-std = "*"
