[package]
name = "flashblocks_rpc"
version = "0.1.0"
edition = "2021"
publish = false

[dependencies]
alloy-consensus = { version = "=1.0.42", features = ["k256", "serde"] }
alloy-eips = { version = "=1.0.42", features = ["serde"] }
alloy-primitives = { version = "=1.7.3", features = ["serde", "rlp"] }
alloy-rlp = "=0.3.17"
alloy-rpc-types-engine = { version = "=1.0.42", default-features = false, features = ["std", "serde"] }
alloy-rpc-types-eth = { version = "=1.0.42", features = ["serde"] }
# The JSON of the wire names this in its serde attributes. It has to match alloy-consensus.
alloy-serde = "~1.0.41"
# Called by nothing here: it holds the macros that alloy-consensus is built with to its version.
alloy-tx-macros = "~1.0.41"
arc-swap = "=1.9.3"
brotli = "=8.0.4"
eyre = "0.6"
fastrand = "=2.5.0"
futures-util = "0.3"
metrics = "0.24"
metrics-derive = "0.1"
op-alloy-consensus = { version = "=0.20.0", features = ["k256", "serde"] }
op-alloy-rpc-types = { version = "=0.20.0", features = ["serde"] }
revm-database = "=7.0.5"
serde = { version = "1", features = ["derive"] }
serde_json = "1"
sonic-rs = "=0.5.10"
tokio = { version = "1", features = ["full"] }
tokio-tungstenite = "0.28"
tracing = "0.1"
url = "2"
