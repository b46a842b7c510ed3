[package]
name = "holo_dht"
version = "0.1.0"
edition = "2021"
publish = false

[dependencies]
base64 = "*"
blake2b_simd = "*"
kitsune_p2p_dht_arc = "*"
