[package]
name = "rune_engine"
version = "0.1.0"
edition = "2021"
publish = false

[dependencies]
bitcoin = "0.32"
ordinals = "*"
sha2 = "*"
ripemd = "*"
tiny-keccak = { version = "*", features = ["sha3"] }
bs58 = "*"
ic-secp256k1 = "*"
ic-cdk = "0.17"
ic-cdk-timers = "*"
candid = "*"
icrc-ledger-types = "*"
serde = "*"
serde_bytes = "*"
base64 = "0.13"

[dev-dependencies]
hex = "*"
