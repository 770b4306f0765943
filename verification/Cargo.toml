[package]
name = "locked_vault_claims"
version = "0.1.0"
edition = "2021"
publish = false

[dependencies]
cosmwasm-std = "=1.5.11"
cw-storage-plus = "=1.2.0"
cw-utils = "=1.0.3"
cw-vault-standard = { version = "=0.4.1", features = ["lockup", "force-unlock"] }
cw20 = "=1.1.2"
cw2 = "=1.1.2"
cw-ownable = "=0.5.1"
cosmwasm-schema = "=1.5.11"
serde = { version = "1", features = ["derive"] }
schemars = "0.8"
thiserror = "1"
semver = "1"
cw-item-set = { version = "=0.7.1", default-features = false, features = ["iterator"] }
cw-address-like = "1"
apollo-cw-asset = "=0.1.2"
apollo-utils = "=0.1.2"
cw-dex = "=0.6.0"
cw-dex-astroport = "=0.2.0"
cw-dex-router = "=0.5.0"
liquidity-helper = "=0.4.0"
osmosis-std = "=0.22.0"
strum = { version = "=0.25.0", features = ["derive"] }
