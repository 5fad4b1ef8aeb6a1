[package]
name = "amms"
version = "0.1.0"
edition = "2021"
publish = false

[dependencies]
alloy = { version = "1", default-features = false, features = ["std", "contract", "providers", "rpc-types"] }
uniswap_v3_math = "=0.6.2"
serde = { version = "1", features = ["derive"] }
tokio = { version = "1", features = ["rt", "macros"] }
futures = "0.3"
async-trait = "0.1"
num-bigfloat = "1"
tracing = "0.1"
