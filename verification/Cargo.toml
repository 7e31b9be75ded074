[package]
name = "dca_bench"
version = "0.1.0"
edition = "2021"
publish = false

[dependencies]
blake2b-rs = "=0.2.0"
ckb-merkle-mountain-range = "=0.6.1"
sparse-merkle-tree = { version = "=0.6.1", features = ["trie"] }
ckb-rocksdb = "=0.22.2"
rand_chacha = "=0.3.1"

[dev-dependencies]
tempfile = "3"
