[package]
name = "northstar_index_fund"
version = "0.1.0"
edition = "2021"
publish = false

[dependencies]
blake3 = { version = "1", default-features = false, features = ["pure", "std"] }
memchr = "2"
hashbrown = "0.15"
smallvec = "1"
arc-swap = "1"
crossbeam-channel = "0.5"
