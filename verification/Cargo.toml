[package]
name = "axelar_arbs"
version = "0.1.0"
edition = "2021"
publish = false

[dependencies]
num-bigint = "0.4"
hex = "0.4"
ethers-core = { version = "2", default-features = false }
ethers-providers = { version = "2", default-features = false, features = ["ws"] }
serde = { version = "1", features = ["derive"] }
serde_json = "1"
tokio = { version = "1", features = ["full"] }
reqwest = { version = "0.11", features = ["json"] }
web3 = { version = "0.19", default-features = false, features = ["http", "signing"] }
secp256k1 = "0.21"
dotenv = "0.15"
lazy_static = "1"
rust_decimal = "1"
