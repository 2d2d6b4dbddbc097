[package]
name = "vision_market"
version = "0.1.0"
edition = "2021"
publish = false

[dependencies]
bech32 = "0.9"
bs58 = "*"
sha2 = "*"
hex = "*"
serde_json = "*"
anyhow = "*"
sled = "*"
tokio = { version = "*", features = ["rt-multi-thread", "macros", "time"] }
reqwest = { version = "*", default-features = false, features = ["json"] }
