[package]
name = "hana"
version = "0.1.0"
edition = "2021"
publish = false

[dependencies]
alloy-chains = "=0.2.39"
alloy-consensus = "=1.8.3"
alloy-primitives = "=1.7.3"
alloy-rlp = "=0.3.16"
alloy-trie = "=0.9.8"
anyhow = "1"
async-trait = "0.1"
bincode = "=1.3.3"
celestia-types = "=1.3.0"
kona-preimage = { version = "=0.3.0", features = ["std"] }
serde = { version = "1", features = ["derive"] }
tracing = "0.1"
