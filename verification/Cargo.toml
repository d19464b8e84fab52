[package]
name = "friend-tech-app"
version = "0.1.0"
edition = "2021"
publish = false

[dependencies]
abstract-app = "=0.22.3"
abstract-interface = "=0.22.5"
const_format = "=0.2.37"
cosmwasm-schema = "=1.5.11"
cosmwasm-std = "=1.5.11"
cw-asset = "=3.1.1"
cw-controllers = "=1.1.2"
cw-orch = "=0.22.2"
cw-orch-contract-derive = "=0.21.0"
cw-storage-plus = "=1.2.0"
cw-utils = "=1.0.3"
thiserror = "=1.0.69"
