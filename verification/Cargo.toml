[package]
name = "unified_keys"
version = "0.1.0"
edition = "2021"
publish = false

[dependencies]
bip0039 = "*"
orchard = { version = "=0.15.5", default-features = false }
sapling-crypto = { version = "=0.7.0", default-features = false }
secp256k1 = "=0.29.1"
zcash_address = "=0.13.0"
zcash_keys = { version = "=0.16.1", features = ["orchard", "sapling", "transparent-inputs"] }
zcash_protocol = "=0.10.6"
zcash_transparent = "=0.10.0"
zip32 = "=0.2.1"
