[package]
name = "contract_build"
version = "0.1.0"
edition = "2021"
publish = false

[dependencies]
anyhow = "1"
blake2 = "0.10"
colored = "2"
contract-metadata = "*"
duct = "0.13"
parity-wasm = "0.45"
polkavm-linker = "*"
rustc_version = "0.4"
semver = "1"
serde = { version = "1", features = ["derive"] }
serde_json = "1"
