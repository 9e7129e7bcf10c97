[package]
name = "filecoin_ledger"
version = "0.1.0"
edition = "2021"
publish = false

[dependencies]
cid = "*"
multihash-codetable = { version = "*", features = ["sha2"] }
fvm_ipld_blockstore = "*"
serde = { version = "*", features = ["derive"] }
serde_json = "*"
anyhow = "*"
async-trait = "*"
